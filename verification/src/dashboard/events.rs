//! Events of the swarm as the dashboard takes them in.

use crate::dashboard::api;
use crate::dashboard::api::{AgentInfo, AgentInfoView};
use crate::json;
use crate::json::{Field, FieldView, LeafView};
use crate::table::Table;
use crate::text;
use vstd::prelude::*;

verus! {

/// A line of an agent's log.
pub struct LogLine {
    pub class: String,
    pub text: String,
}

/// What a [`LogLine`] says.
#[verifier::ext_equal]
pub struct LogLineView {
    pub class: Seq<char>,
    pub text: Seq<char>,
}

impl View for LogLine {
    type V = LogLineView;

    open spec fn view(&self) -> LogLineView {
        LogLineView { class: self.class@, text: self.text@ }
    }
}

/// The log of an agent.
pub struct Log {
    pub lines: Vec<LogLine>,
}

impl View for Log {
    type V = Seq<LogLineView>;

    open spec fn view(&self) -> Seq<LogLineView> {
        self.lines@.map_values(|l: LogLine| l@)
    }
}

/// A cycle that was completed: when it started, when it ended, and how.
pub struct Cycle {
    pub started: String,
    pub completed: String,
    pub status: String,
}

/// What a [`Cycle`] says.
#[verifier::ext_equal]
pub struct CycleView {
    pub started: Seq<char>,
    pub completed: Seq<char>,
    pub status: Seq<char>,
}

impl View for Cycle {
    type V = CycleView;

    open spec fn view(&self) -> CycleView {
        CycleView {
            started: self.started@,
            completed: self.completed@,
            status: self.status@,
        }
    }
}

/// The cycles that an agent completed lately.
pub struct Cycles {
    pub entries: Vec<Cycle>,
}

impl View for Cycles {
    type V = Seq<CycleView>;

    open spec fn view(&self) -> Seq<CycleView> {
        self.entries@.map_values(|c: Cycle| c@)
    }
}

/// The first `n` characters of a longer text, with a mark.
pub open spec fn shortened(s: Seq<char>, n: nat) -> Seq<char> {
    if s.len() > n {
        s.take(n as int) + "…"@
    } else {
        s
    }
}

/// The first `n` characters of a longer text, with a mark.
pub fn trunc(s: &str, n: usize) -> (r: String)
    ensures
        r@ == shortened(s@, n as nat),
{
    if s.unicode_len() > n {
        text::cat(text::take(s, n), "…")
    } else {
        s.to_string()
    }
}

pub open spec fn number_or_zero(d: Seq<FieldView>, key: Seq<char>) -> nat {
    match json::number_at(d, key) {
        Some(n) => n as nat,
        None => 0,
    }
}

/// The JSON text of a member; empty where there is none.
pub open spec fn text_or_empty(d: Seq<FieldView>, key: Seq<char>) -> Seq<char> {
    match json::member(d, key) {
        Some(l) => l.text,
        None => Seq::empty(),
    }
}

/// The text of a streamed chunk: its delta, or its response where it has no delta.
pub open spec fn chunk_text(chunk: Option<Seq<FieldView>>) -> Seq<char> {
    match chunk {
        None => Seq::empty(),
        Some(c) => {
            let leaf = match json::member(c, "delta"@) {
                Some(l) => Some(l),
                None => json::member(c, "response"@),
            };
            match leaf {
                Some(l) => match l.string {
                    Some(s) => s,
                    None => Seq::empty(),
                },
                None => Seq::empty(),
            }
        },
    }
}

pub open spec fn line(class: Seq<char>, text: Seq<char>) -> Option<LogLineView> {
    Some(LogLineView { class, text })
}

/// The log line for an event of a kind, given the members of its data and those of the
/// chunk in it. Some events have none.
pub open spec fn event_line(kind: Seq<char>, d: Seq<FieldView>, chunk: Option<Seq<FieldView>>) -> Option<
    LogLineView,
> {
    if kind == "TaskStarted"@ {
        line("ev-turn"@, "▶ task started: "@ + json::string_or_empty(d, "task_description"@))
    } else if kind == "TurnStarted"@ {
        line(
            "ev-turn"@,
            "— turn "@ + text::decimal(number_or_zero(d, "turn_number"@) + 1) + "/"@
                + text::decimal(number_or_zero(d, "max_turns"@)),
        )
    } else if kind == "ToolCallRequested"@ {
        line(
            "ev-tool"@,
            "🔧 "@ + json::string_or_empty(d, "tool_name"@) + "("@ + shortened(
                json::string_or_empty(d, "arguments"@),
                200,
            ) + ")"@,
        )
    } else if kind == "ToolCallCompleted"@ {
        line(
            "ev-tool"@,
            "✓ "@ + json::string_or_empty(d, "tool_name"@) + " → "@ + shortened(
                text_or_empty(d, "result"@),
                200,
            ),
        )
    } else if kind == "ToolCallFailed"@ {
        line(
            "ev-error"@,
            "✗ "@ + json::string_or_empty(d, "tool_name"@) + ": "@ + json::string_or_empty(
                d,
                "error"@,
            ),
        )
    } else if kind == "StreamChunk"@ {
        if chunk_text(chunk).len() == 0 {
            None
        } else {
            line(Seq::empty(), chunk_text(chunk))
        }
    } else if kind == "TaskComplete"@ {
        line("ev-done"@, "✅ "@ + shortened(json::string_or_empty(d, "result"@), 4000))
    } else if kind == "TaskError"@ {
        line("ev-error"@, "❌ "@ + json::string_or_empty(d, "error"@))
    } else {
        None
    }
}

fn get_number(d: &Vec<Field>, key: &str) -> (r: u64)
    ensures
        r == number_or_zero(json::field_views(d@), key@),
{
    match json::get_number(d, key) {
        Some(n) => n,
        None => 0,
    }
}

/// The numeral of the number after `n`.
fn next_decimal(n: u64) -> (r: String)
    ensures
        r@ == text::decimal((n + 1) as nat),
{
    if n < u64::MAX {
        text::to_decimal(n + 1)
    } else {
        let mut out = text::to_decimal(1844674407370955161);
        out.push('6');
        assert(out@ =~= text::decimal(18446744073709551616));
        out
    }
}

fn get_chunk_text(chunk: &Option<Vec<Field>>) -> (r: String)
    ensures
        r@ == chunk_text(json::object_view(*chunk)),
{
    match chunk {
        None => String::new(),
        Some(c) => {
            let leaf = match json::get(c, "delta") {
                Some(l) => Some(l),
                None => json::get(c, "response"),
            };
            match leaf {
                Some(l) => match &l.string {
                    Some(s) => s.clone(),
                    None => String::new(),
                },
                None => String::new(),
            }
        },
    }
}

fn log_line(class: &str, t: String) -> (r: Option<LogLine>)
    ensures
        line_view(r) == line(class@, t@),
{
    Some(LogLine { class: class.to_string(), text: t })
}

pub open spec fn line_view(l: Option<LogLine>) -> Option<LogLineView> {
    match l {
        Some(l) => Some(l@),
        None => None,
    }
}

/// The log line for an event of a kind, given the members of its data and those of the
/// chunk in it.
pub fn format_event(kind: &str, d: &Vec<Field>, chunk: &Option<Vec<Field>>) -> (r: Option<LogLine>)
    ensures
        line_view(r) == event_line(kind@, json::field_views(d@), json::object_view(*chunk)),
{
    if text::same(kind, "TaskStarted") {
        let t = text::cat(
            "▶ task started: ",
            json::get_string_or_empty(d, "task_description").as_str(),
        );
        log_line("ev-turn", t)
    } else if text::same(kind, "TurnStarted") {
        let mut t = "— turn ".to_string();
        t.append(next_decimal(get_number(d, "turn_number")).as_str());
        t.append("/");
        t.append(text::to_decimal(get_number(d, "max_turns")).as_str());
        log_line("ev-turn", t)
    } else if text::same(kind, "ToolCallRequested") {
        let mut t = "🔧 ".to_string();
        t.append(json::get_string_or_empty(d, "tool_name").as_str());
        t.append("(");
        t.append(trunc(json::get_string_or_empty(d, "arguments").as_str(), 200).as_str());
        t.append(")");
        log_line("ev-tool", t)
    } else if text::same(kind, "ToolCallCompleted") {
        let mut t = "✓ ".to_string();
        t.append(json::get_string_or_empty(d, "tool_name").as_str());
        t.append(" → ");
        let result = match json::get(d, "result") {
            Some(l) => l.text.clone(),
            None => String::new(),
        };
        t.append(trunc(result.as_str(), 200).as_str());
        log_line("ev-tool", t)
    } else if text::same(kind, "ToolCallFailed") {
        let mut t = "✗ ".to_string();
        t.append(json::get_string_or_empty(d, "tool_name").as_str());
        t.append(": ");
        t.append(json::get_string_or_empty(d, "error").as_str());
        log_line("ev-error", t)
    } else if text::same(kind, "StreamChunk") {
        let t = get_chunk_text(chunk);
        if t.as_str().is_empty() {
            None
        } else {
            proof {
                reveal_strlit("");
                assert(""@ =~= Seq::<char>::empty());
            }
            log_line("", t)
        }
    } else if text::same(kind, "TaskComplete") {
        let t = text::cat(
            "✅ ",
            trunc(json::get_string_or_empty(d, "result").as_str(), 4000).as_str(),
        );
        log_line("ev-done", t)
    } else if text::same(kind, "TaskError") {
        let t = text::cat("❌ ", json::get_string_or_empty(d, "error").as_str());
        log_line("ev-error", t)
    } else {
        None
    }
}

/// What an event of the whole swarm asks the dashboard to do.
#[derive(Clone, Copy, Debug, PartialEq, Eq, Structural)]
pub enum Effect {
    Nothing,
    /// Load the page anew.
    Reload,
    /// Fetch the tasks.
    RefreshTasks,
    /// Fetch the model and the list of models.
    RefreshModel,
}

/// What an event of the whole swarm asks the dashboard to do.
pub open spec fn system_effect(kind: Seq<char>) -> Effect {
    if kind == "Reload"@ {
        Effect::Reload
    } else if kind == "TasksChanged"@ {
        Effect::RefreshTasks
    } else if kind == "ModelChanged"@ {
        Effect::RefreshModel
    } else {
        Effect::Nothing
    }
}

/// The status that an event brings.
pub open spec fn event_status(kind: Seq<char>) -> Option<Seq<char>> {
    if kind == "TaskStarted"@ {
        Some("running"@)
    } else if kind == "TaskComplete"@ {
        Some("done"@)
    } else if kind == "TaskError"@ {
        Some("error"@)
    } else {
        None
    }
}

/// The position of the first agent with an id.
pub open spec fn agent_at(agents: Seq<AgentInfoView>, id: Seq<char>) -> Option<int>
    decreases agents.len(),
{
    if agents.len() == 0 {
        None
    } else if agents[0].id == id {
        Some(0)
    } else {
        match agent_at(agents.drop_first(), id) {
            Some(i) => Some(i + 1),
            None => None,
        }
    }
}

/// An agent after an event: what ends a cycle also notes when.
pub open spec fn agent_after(a: AgentInfoView, kind: Seq<char>, now: Seq<char>) -> AgentInfoView {
    match event_status(kind) {
        Some(s) => AgentInfoView {
            status: s,
            cycle_completed: if kind == "TaskStarted"@ {
                a.cycle_completed
            } else {
                now
            },
            ..a
        },
        None => a,
    }
}

/// How many completed cycles are kept for an agent.
pub const CYCLES_KEPT: usize = 5;

/// The completed cycles with one more, the oldest dropped where there are too many.
pub open spec fn with_cycle(cs: Seq<CycleView>, c: CycleView) -> Seq<CycleView> {
    let all = cs.push(c);
    if all.len() > CYCLES_KEPT {
        all.drop_first()
    } else {
        all
    }
}

/// What the dashboard knows of the running agents.
#[verifier::ext_equal]
pub struct FeedView {
    pub agents: Seq<AgentInfoView>,
    pub logs: Map<Seq<char>, Seq<LogLineView>>,
    /// Completed cycles that a new one has taken the place of.
    pub cycles: Map<Seq<char>, Seq<CycleView>>,
}

pub open spec fn log_of(logs: Map<Seq<char>, Seq<LogLineView>>, id: Seq<char>) -> Seq<LogLineView> {
    if logs.contains_key(id) {
        logs[id]
    } else {
        Seq::empty()
    }
}

pub open spec fn cycles_of(cycles: Map<Seq<char>, Seq<CycleView>>, id: Seq<char>) -> Seq<CycleView> {
    if cycles.contains_key(id) {
        cycles[id]
    } else {
        Seq::empty()
    }
}

/// The completed cycles once an agent starts another: the one before is kept.
pub open spec fn cycles_after(st: FeedView, id: Seq<char>, kind: Seq<char>) -> Map<
    Seq<char>,
    Seq<CycleView>,
> {
    match agent_at(st.agents, id) {
        Some(i) => {
            let a = st.agents[i];
            if kind == "TaskStarted"@ && a.cycle_completed.len() > 0 {
                st.cycles.insert(
                    id,
                    with_cycle(
                        cycles_of(st.cycles, id),
                        CycleView {
                            started: a.cycle_started,
                            completed: a.cycle_completed,
                            status: a.status,
                        },
                    ),
                )
            } else {
                st.cycles
            }
        },
        None => st.cycles,
    }
}

/// What the dashboard knows after an event of an agent.
pub open spec fn fed(
    st: FeedView,
    id: Seq<char>,
    kind: Seq<char>,
    line: Option<LogLineView>,
    now: Seq<char>,
) -> FeedView {
    FeedView {
        agents: match agent_at(st.agents, id) {
            Some(i) => st.agents.update(i, agent_after(st.agents[i], kind, now)),
            None => st.agents,
        },
        logs: match line {
            Some(l) => st.logs.insert(id, log_of(st.logs, id).push(l)),
            None => st.logs,
        },
        cycles: cycles_after(st, id, kind),
    }
}

/// What the dashboard knows of the running agents.
pub struct Feed {
    agents: Vec<AgentInfo>,
    logs: Table<Log>,
    cycles: Table<Cycles>,
}

impl View for Feed {
    type V = FeedView;

    closed spec fn view(&self) -> FeedView {
        FeedView {
            agents: api::agent_views(self.agents@),
            logs: self.logs@,
            cycles: self.cycles@,
        }
    }
}

fn copy_log(l: &Log) -> (r: Log)
    ensures
        r@ == l@,
{
    let mut lines: Vec<LogLine> = Vec::new();
    let mut i: usize = 0;
    let ghost all = l@;
    let ghost view = |x: LogLine| x@;
    assert(lines@.map_values(view) =~= all.take(0));
    while i < l.lines.len()
        invariant
            i <= l.lines.len(),
            all == l@,
            view == (|x: LogLine| x@),
            lines@.map_values(view) == all.take(i as int),
        decreases l.lines.len() - i,
    {
        let ghost before = lines@.map_values(view);
        let x = LogLine { class: l.lines[i].class.clone(), text: l.lines[i].text.clone() };
        let ghost v = x@;
        lines.push(x);
        assert(lines@.map_values(view) =~= before.push(v));
        i += 1;
        assert(lines@.map_values(view) =~= all.take(i as int));
    }
    assert(all.take(i as int) =~= all);
    Log { lines }
}

fn copy_cycles(c: &Cycles) -> (r: Cycles)
    ensures
        r@ == c@,
{
    let mut entries: Vec<Cycle> = Vec::new();
    let mut i: usize = 0;
    let ghost all = c@;
    let ghost view = |x: Cycle| x@;
    assert(entries@.map_values(view) =~= all.take(0));
    while i < c.entries.len()
        invariant
            i <= c.entries.len(),
            all == c@,
            view == (|x: Cycle| x@),
            entries@.map_values(view) == all.take(i as int),
        decreases c.entries.len() - i,
    {
        let ghost before = entries@.map_values(view);
        let e = &c.entries[i];
        let x = Cycle {
            started: e.started.clone(),
            completed: e.completed.clone(),
            status: e.status.clone(),
        };
        let ghost v = x@;
        entries.push(x);
        assert(entries@.map_values(view) =~= before.push(v));
        i += 1;
        assert(entries@.map_values(view) =~= all.take(i as int));
    }
    assert(all.take(i as int) =~= all);
    Cycles { entries }
}

impl Feed {
    pub closed spec fn wf(&self) -> bool {
        self.logs.wf() && self.cycles.wf()
    }

    pub fn new() -> (r: Feed)
        ensures
            r.wf(),
            r@ == (FeedView { agents: Seq::empty(), logs: Map::empty(), cycles: Map::empty() }),
    {
        let r = Feed { agents: Vec::new(), logs: Table::new(), cycles: Table::new() };
        assert(r@.agents =~= Seq::<AgentInfoView>::empty());
        r
    }

    /// The agents as the server reports them now.
    pub fn set_agents(&mut self, agents: Vec<AgentInfo>)
        requires
            old(self).wf(),
        ensures
            final(self).wf(),
            final(self)@ == (FeedView { agents: api::agent_views(agents@), ..old(self)@ }),
    {
        self.agents = agents;
    }

    pub fn agents(&self) -> (r: &Vec<AgentInfo>)
        ensures
            api::agent_views(r@) == self@.agents,
    {
        &self.agents
    }

    /// The log of an agent.
    pub fn log(&self, id: &str) -> (r: Log)
        requires
            self.wf(),
        ensures
            r@ == log_of(self@.logs, id@),
    {
        match self.logs.get(id) {
            Some(l) => copy_log(l),
            None => {
                let l = Log { lines: Vec::new() };
                assert(l@ =~= Seq::<LogLineView>::empty());
                l
            },
        }
    }

    /// The earlier cycles of an agent.
    pub fn cycles(&self, id: &str) -> (r: Cycles)
        requires
            self.wf(),
        ensures
            r@ == cycles_of(self@.cycles, id@),
    {
        match self.cycles.get(id) {
            Some(c) => copy_cycles(c),
            None => {
                let c = Cycles { entries: Vec::new() };
                assert(c@ =~= Seq::<CycleView>::empty());
                c
            },
        }
    }

    fn find(&self, id: &str) -> (r: Option<usize>)
        ensures
            agent_at(self@.agents, id@) == match r {
                Some(i) => Some(i as int),
                None => None,
            },
            r matches Some(i) ==> i < self@.agents.len(),
    {
        let ghost all = self@.agents;
        let mut i: usize = 0;
        assert(all.skip(0) =~= all);
        while i < self.agents.len()
            invariant
                i <= self.agents.len(),
                all == api::agent_views(self.agents@),
                agent_at(all, id@) == match agent_at(all.skip(i as int), id@) {
                    Some(j) => Some(j + i),
                    None => None,
                },
            decreases self.agents.len() - i,
        {
            assert(all.skip(i as int)[0] == self.agents[i as int]@);
            assert(all.skip(i as int).drop_first() =~= all.skip(i + 1));
            if text::same(self.agents[i].id.as_str(), id) {
                return Some(i);
            }
            i += 1;
        }
        None
    }

    /// Takes in an event of a kind of the agent `id`, with its log line if it has one, at the
    /// time `now`.
    pub fn feed(&mut self, id: &str, kind: &str, line: Option<LogLine>, now: &str)
        requires
            old(self).wf(),
        ensures
            final(self).wf(),
            final(self)@ == fed(old(self)@, id@, kind@, line_view(line), now@),
    {
        let ghost before = self@;
        let started = text::same(kind, "TaskStarted");
        let status: Option<&'static str> = if started {
            Some("running")
        } else if text::same(kind, "TaskComplete") {
            Some("done")
        } else if text::same(kind, "TaskError") {
            Some("error")
        } else {
            None
        };
        if let Some(i) = self.find(id) {
            assert(before.agents[i as int] == self.agents[i as int]@);
            if started && !self.agents[i].cycle_completed.as_str().is_empty() {
                let mut kept = self.cycles(id);
                let ghost old_kept = kept@;
                let c = Cycle {
                    started: self.agents[i].cycle_started.clone(),
                    completed: self.agents[i].cycle_completed.clone(),
                    status: self.agents[i].status.clone(),
                };
                let ghost cv = c@;
                kept.entries.push(c);
                assert(kept@ =~= old_kept.push(cv));
                if kept.entries.len() > CYCLES_KEPT {
                    let ghost full = kept@;
                    kept.entries.remove(0);
                    assert(kept@ =~= full.drop_first());
                }
                self.cycles.insert(id.to_string(), kept);
            }
            let mut a = self.agents[i].clone();
            if let Some(s) = status {
                a.status = s.to_string();
                if !started {
                    a.cycle_completed = now.to_string();
                }
            }
            assert(a@ =~= agent_after(before.agents[i as int], kind@, now@));
            let ghost av = a@;
            self.agents.set(i, a);
            assert(api::agent_views(self.agents@) =~= before.agents.update(i as int, av));
        }
        if let Some(l) = line {
            let mut log = self.log(id);
            let ghost old_log = log@;
            let ghost lv = l@;
            log.lines.push(l);
            assert(log@ =~= old_log.push(lv));
            self.logs.insert(id.to_string(), log);
        }
        assert(self@ =~= fed(before, id@, kind@, line_view(line), now@));
    }

    /// Takes in an event of the agent `agent_id` as its JSON text at the time `now`, and says
    /// what it asks the dashboard to do. The event is an object with one member, whose key is
    /// its kind and whose value is its data.
    pub fn handle_event(&mut self, agent_id: &str, event: &str, now: &str) -> (r: Effect)
        requires
            old(self).wf(),
        ensures
            final(self).wf(),
            (final(self)@, r) == handled(old(self)@, agent_id@, event@, now@),
    {
        let fields = match json::read_object(event) {
            Some(f) => f,
            None => {
                return Effect::Nothing;
            },
        };
        if fields.len() == 0 {
            return Effect::Nothing;
        }
        let kind = fields[0].key.as_str();
        assert(json::field_views(fields@)[0] == fields[0]@);
        if text::same(agent_id, "system") {
            return if text::same(kind, "Reload") {
                Effect::Reload
            } else if text::same(kind, "TasksChanged") {
                Effect::RefreshTasks
            } else if text::same(kind, "ModelChanged") {
                Effect::RefreshModel
            } else {
                Effect::Nothing
            };
        }
        let data = match json::read_object(fields[0].value.text.as_str()) {
            Some(d) => d,
            None => {
                let none: Vec<Field> = Vec::new();
                assert(json::field_views(none@) =~= Seq::<FieldView>::empty());
                none
            },
        };
        let chunk = match json::get(&data, "chunk") {
            Some(l) => json::read_object(l.text.as_str()),
            None => None,
        };
        let line = format_event(kind, &data, &chunk);
        self.feed(agent_id, kind, line, now);
        Effect::Nothing
    }
}

/// The members of an event's data.
pub open spec fn data_of(value: LeafView) -> Seq<FieldView> {
    match json::json_object(value.text) {
        Some(d) => d,
        None => Seq::empty(),
    }
}

/// The members of the chunk in an event's data.
pub open spec fn chunk_of(d: Seq<FieldView>) -> Option<Seq<FieldView>> {
    match json::member(d, "chunk"@) {
        Some(l) => json::json_object(l.text),
        None => None,
    }
}

/// What the dashboard knows after an event, and what it is asked to do.
pub open spec fn handled(st: FeedView, id: Seq<char>, event: Seq<char>, now: Seq<char>) -> (
    FeedView,
    Effect,
) {
    match json::json_object(event) {
        None => (st, Effect::Nothing),
        Some(fields) => if fields.len() == 0 {
            (st, Effect::Nothing)
        } else if id == "system"@ {
            (st, system_effect(fields[0].key))
        } else {
            let d = data_of(fields[0].value);
            (
                fed(st, id, fields[0].key, event_line(fields[0].key, d, chunk_of(d)), now),
                Effect::Nothing,
            )
        },
    }
}

/// Never more completed cycles are kept than there is room for, and the newest is the last.
pub proof fn law_cycles_are_bounded(cs: Seq<CycleView>, c: CycleView)
    requires
        cs.len() <= CYCLES_KEPT,
    ensures
        with_cycle(cs, c).len() <= CYCLES_KEPT,
        with_cycle(cs, c).last() == c,
{
}

/// An event changes nothing of any agent but its own.
pub proof fn law_events_concern_one_agent(
    st: FeedView,
    id: Seq<char>,
    kind: Seq<char>,
    line: Option<LogLineView>,
    now: Seq<char>,
    other: Seq<char>,
)
    requires
        other != id,
    ensures
        log_of(fed(st, id, kind, line, now).logs, other) == log_of(st.logs, other),
        cycles_of(fed(st, id, kind, line, now).cycles, other) == cycles_of(st.cycles, other),
        fed(st, id, kind, line, now).agents.len() == st.agents.len(),
        forall|i: int|
            0 <= i < st.agents.len() && (#[trigger] st.agents[i]).id != id ==> fed(
                st,
                id,
                kind,
                line,
                now,
            ).agents[i] == st.agents[i],
{
    lemma_agent_at(st.agents, id);
}

proof fn lemma_agent_at(agents: Seq<AgentInfoView>, id: Seq<char>)
    ensures
        agent_at(agents, id) matches Some(i) ==> 0 <= i < agents.len() && agents[i].id == id,
    decreases agents.len(),
{
    if agents.len() > 0 && agents[0].id != id {
        lemma_agent_at(agents.drop_first(), id);
    }
}

/// A text that was shortened has at most one character more than asked for.
pub proof fn law_shortened(s: Seq<char>, n: nat)
    ensures
        shortened(s, n).len() <= n + 1,
        s.len() <= n ==> shortened(s, n) == s,
{
    reveal_strlit("…");
}

/// A text that is shortened keeps its start unchanged, and is told from one that is not.
pub proof fn law_start_is_kept(s: Seq<char>, n: nat, i: int)
    ensures
        0 <= i < s.len() && i < n ==> shortened(s, n)[i] == s[i],
        s.len() > n ==> shortened(s, n) == s.take(n as int) + "…"@,
{
}

/// What an event says is logged: the task, the tool and its arguments, its result or its error,
/// and the piece of a reply, each whole where it is short enough.
pub proof fn law_events_are_logged(d: Seq<FieldView>, chunk: Option<Seq<FieldView>>)
    ensures
        event_line("TaskStarted"@, d, chunk) matches Some(l) && l.text == "▶ task started: "@
            + json::string_or_empty(d, "task_description"@),
        json::string_or_empty(d, "arguments"@).len() <= 200 ==> (event_line(
            "ToolCallRequested"@,
            d,
            chunk,
        ) matches Some(l) && l.text == "🔧 "@ + json::string_or_empty(d, "tool_name"@) + "("@
            + json::string_or_empty(d, "arguments"@) + ")"@),
        json::member(d, "result"@) matches Some(leaf) ==> (leaf.text.len() <= 200 ==> (event_line(
            "ToolCallCompleted"@,
            d,
            chunk,
        ) matches Some(l) && l.text == "✓ "@ + json::string_or_empty(d, "tool_name"@) + " → "@
            + leaf.text)),
        event_line("ToolCallFailed"@, d, chunk) matches Some(l) && l.class == "ev-error"@ && l.text
            == "✗ "@ + json::string_or_empty(d, "tool_name"@) + ": "@ + json::string_or_empty(
            d,
            "error"@,
        ),
        json::string_or_empty(d, "result"@).len() <= 4000 ==> (event_line(
            "TaskComplete"@,
            d,
            chunk,
        ) matches Some(l) && l.class == "ev-done"@ && l.text == "✅ "@ + json::string_or_empty(
            d,
            "result"@,
        )),
        event_line("TaskError"@, d, chunk) matches Some(l) && l.class == "ev-error"@ && l.text
            == "❌ "@ + json::string_or_empty(d, "error"@),
{
    lemma_kinds();
}

/// A turn is counted from one, out of as many as there may be.
pub proof fn law_turns_are_counted(d: Seq<FieldView>, chunk: Option<Seq<FieldView>>, n: u64, max: u64)
    requires
        json::number_at(d, "turn_number"@) == Some(n),
        json::number_at(d, "max_turns"@) == Some(max),
    ensures
        event_line("TurnStarted"@, d, chunk) matches Some(l) && l.text == "— turn "@
            + text::decimal((n + 1) as nat) + "/"@ + text::decimal(max as nat),
{
    lemma_kinds();
}

/// A streamed piece is logged exactly, white space and all; an empty one is not logged.
pub proof fn law_pieces_are_logged(d: Seq<FieldView>, c: Seq<FieldView>, t: Seq<char>)
    requires
        json::string_at(c, "delta"@) == Some(t),
    ensures
        t.len() > 0 ==> (event_line("StreamChunk"@, d, Some(c)) matches Some(l) && l.text == t
            && l.class.len() == 0),
        t.len() == 0 ==> event_line("StreamChunk"@, d, Some(c)) is None,
{
    lemma_kinds();
}

proof fn lemma_kinds()
    ensures
        "TaskStarted"@.len() == 11 && "TaskStarted"@[1] == 'a',
        "TurnStarted"@.len() == 11 && "TurnStarted"@[1] == 'u',
        "ToolCallRequested"@.len() == 17 && "ToolCallRequested"@[8] == 'R',
        "ToolCallCompleted"@.len() == 17 && "ToolCallCompleted"@[8] == 'C',
        "ToolCallFailed"@.len() == 14,
        "StreamChunk"@.len() == 11 && "StreamChunk"@[1] == 't',
        "TaskComplete"@.len() == 12,
        "TaskError"@.len() == 9,
{
    reveal_strlit("TaskStarted");
    reveal_strlit("TurnStarted");
    reveal_strlit("ToolCallRequested");
    reveal_strlit("ToolCallCompleted");
    reveal_strlit("ToolCallFailed");
    reveal_strlit("StreamChunk");
    reveal_strlit("TaskComplete");
    reveal_strlit("TaskError");
}

/// The log of an agent only grows: each line goes behind all the lines before, and an event
/// without a line leaves the log as it is.
pub proof fn law_log_grows(
    st: FeedView,
    id: Seq<char>,
    kind: Seq<char>,
    l: LogLineView,
    now: Seq<char>,
)
    ensures
        ({
            let before = log_of(st.logs, id);
            let after = log_of(fed(st, id, kind, Some(l), now).logs, id);
            &&& after.len() == before.len() + 1
            &&& after.last() == l
            &&& after.drop_last() == before
        }),
        log_of(fed(st, id, kind, None, now).logs, id) == log_of(st.logs, id),
{
    let before = log_of(st.logs, id);
    assert(before.push(l).drop_last() =~= before);
}

/// The start, the success and the failure of a task show in the agent's status, the two ends
/// with their time, and nothing else about the agent changes.
pub proof fn law_status_follows_the_events(
    st: FeedView,
    i: int,
    line: Option<LogLineView>,
    now: Seq<char>,
    kind: Seq<char>,
)
    requires
        0 <= i < st.agents.len(),
        forall|j: int| 0 <= j < i ==> (#[trigger] st.agents[j]).id != st.agents[i].id,
    ensures
        ({
            let a = st.agents[i];
            let started = fed(st, a.id, "TaskStarted"@, line, now).agents[i];
            let done = fed(st, a.id, "TaskComplete"@, line, now).agents[i];
            let failed = fed(st, a.id, "TaskError"@, line, now).agents[i];
            &&& started == (AgentInfoView { status: "running"@, ..a })
            &&& done == (AgentInfoView { status: "done"@, cycle_completed: now, ..a })
            &&& failed == (AgentInfoView { status: "error"@, cycle_completed: now, ..a })
            &&& kind != "TaskStarted"@ && kind != "TaskComplete"@ && kind != "TaskError"@ ==> fed(
                st,
                a.id,
                kind,
                line,
                now,
            ).agents == st.agents
        }),
{
    lemma_kinds();
    lemma_first_agent(st.agents, i);
    if kind != "TaskStarted"@ && kind != "TaskComplete"@ && kind != "TaskError"@ {
        assert(st.agents.update(i, st.agents[i]) =~= st.agents);
    }
}

proof fn lemma_first_agent(agents: Seq<AgentInfoView>, i: int)
    requires
        0 <= i < agents.len(),
        forall|j: int| 0 <= j < i ==> (#[trigger] agents[j]).id != agents[i].id,
    ensures
        agent_at(agents, agents[i].id) == Some(i),
    decreases agents.len(),
{
    if i > 0 {
        let rest = agents.drop_first();
        assert(agents[0].id != agents[i].id);
        assert(rest[i - 1] == agents[i]);
        assert forall|j: int| 0 <= j < i - 1 implies (#[trigger] rest[j]).id != rest[i - 1].id by {
            assert(rest[j] == agents[j + 1]);
        }
        lemma_first_agent(rest, i - 1);
    }
}

/// A cycle that was completed is kept when the next one starts, as it was, behind those kept
/// before; of more than five the oldest goes.
pub proof fn law_completed_cycles_are_kept(
    st: FeedView,
    i: int,
    line: Option<LogLineView>,
    now: Seq<char>,
)
    requires
        0 <= i < st.agents.len(),
        forall|j: int| 0 <= j < i ==> (#[trigger] st.agents[j]).id != st.agents[i].id,
    ensures
        ({
            let a = st.agents[i];
            let before = cycles_of(st.cycles, a.id);
            let after = cycles_of(fed(st, a.id, "TaskStarted"@, line, now).cycles, a.id);
            &&& a.cycle_completed.len() == 0 ==> after == before
            &&& a.cycle_completed.len() > 0 ==> after.last() == (CycleView {
                started: a.cycle_started,
                completed: a.cycle_completed,
                status: a.status,
            })
            &&& a.cycle_completed.len() > 0 && before.len() < 5 ==> after.drop_last() == before
            &&& a.cycle_completed.len() > 0 && before.len() == 5 ==> after.drop_last()
                == before.drop_first()
            &&& fed(st, a.id, "TaskComplete"@, line, now).cycles == st.cycles
            &&& fed(st, a.id, "TaskError"@, line, now).cycles == st.cycles
        }),
{
    lemma_kinds();
    lemma_first_agent(st.agents, i);
    let a = st.agents[i];
    let before = cycles_of(st.cycles, a.id);
    let c = CycleView { started: a.cycle_started, completed: a.cycle_completed, status: a.status };
    assert(before.push(c).drop_last() =~= before);
    if before.len() == 5 {
        assert(before.push(c).drop_first().drop_last() =~= before.drop_first());
    }
}

/// What the dashboard does about an event of the whole swarm is what the event is about.
pub proof fn law_swarm_events(kind: Seq<char>)
    ensures
        system_effect("Reload"@) == Effect::Reload,
        system_effect("TasksChanged"@) == Effect::RefreshTasks,
        system_effect("ModelChanged"@) == Effect::RefreshModel,
        kind != "Reload"@ && kind != "TasksChanged"@ && kind != "ModelChanged"@ ==> system_effect(
            kind,
        ) == Effect::Nothing,
{
    reveal_strlit("Reload");
    reveal_strlit("TasksChanged");
    reveal_strlit("ModelChanged");
    assert("Reload"@.len() == 6 && "TasksChanged"@[0] == 'T' && "ModelChanged"@[0] == 'M');
}

/// The error that an event carries is the last line of the agent's log, whole.
pub proof fn law_carried_error_is_logged(
    st: FeedView,
    id: Seq<char>,
    event: Seq<char>,
    now: Seq<char>,
    members: Seq<(Seq<char>, Seq<char>)>,
    data: Seq<(Seq<char>, Seq<char>)>,
    i: int,
    error: Seq<char>,
)
    requires
        id != "system"@,
        json::json_of(event) == Ok::<_, Seq<char>>(json::JsonView::Object(members)),
        members.len() > 0 && members[0].0 == "TaskError"@,
        json::json_of(members[0].1) == Ok::<_, Seq<char>>(json::JsonView::Object(data)),
        0 <= i < data.len() && data[i].0 == "error"@,
        forall|j: int| 0 <= j < i ==> (#[trigger] data[j]).0 != "error"@,
        json::json_of(data[i].1) == Ok::<_, Seq<char>>(json::JsonView::Text(error)),
    ensures
        ({
            let after = handled(st, id, event, now).0;
            log_of(after.logs, id) == log_of(st.logs, id).push(
                LogLineView { class: "ev-error"@, text: "❌ "@ + error },
            )
        }),
{
    lemma_kinds();
    json::law_members_and_items(event);
    let f = json::json_object(event)->0;
    assert(f[0].key == members[0].0 && f[0].value.text == members[0].1);
    json::law_member_is_found(members[0].1, data, i, "error"@);
}

/// The text that a streamed event carries is the last line of the agent's log, exactly.
pub proof fn law_carried_text_is_logged(
    st: FeedView,
    id: Seq<char>,
    event: Seq<char>,
    now: Seq<char>,
    members: Seq<(Seq<char>, Seq<char>)>,
    data: Seq<(Seq<char>, Seq<char>)>,
    i: int,
    chunk: Seq<(Seq<char>, Seq<char>)>,
    k: int,
    t: Seq<char>,
)
    requires
        id != "system"@,
        json::json_of(event) == Ok::<_, Seq<char>>(json::JsonView::Object(members)),
        members.len() > 0 && members[0].0 == "StreamChunk"@,
        json::json_of(members[0].1) == Ok::<_, Seq<char>>(json::JsonView::Object(data)),
        0 <= i < data.len() && data[i].0 == "chunk"@,
        forall|j: int| 0 <= j < i ==> (#[trigger] data[j]).0 != "chunk"@,
        json::json_of(data[i].1) == Ok::<_, Seq<char>>(json::JsonView::Object(chunk)),
        0 <= k < chunk.len() && chunk[k].0 == "delta"@,
        forall|j: int| 0 <= j < k ==> (#[trigger] chunk[j]).0 != "delta"@,
        json::json_of(chunk[k].1) == Ok::<_, Seq<char>>(json::JsonView::Text(t)),
        t.len() > 0,
    ensures
        ({
            let after = handled(st, id, event, now).0;
            log_of(after.logs, id) == log_of(st.logs, id).push(
                LogLineView { class: Seq::empty(), text: t },
            )
        }),
{
    lemma_kinds();
    json::law_members_and_items(event);
    let f = json::json_object(event)->0;
    assert(f[0].key == members[0].0 && f[0].value.text == members[0].1);
    json::law_member_is_found(members[0].1, data, i, "chunk"@);
    let d = data_of(f[0].value);
    reveal_strlit("null");
    assert(json::member(d, "chunk"@) is Some) by {
        json::law_members_and_items(members[0].1);
        assert(d[i].key == "chunk"@);
        lemma_there(d, i);
    }
    json::law_member_is_found(data[i].1, chunk, k, "delta"@);
}

proof fn lemma_there(d: Seq<FieldView>, i: int)
    requires
        0 <= i < d.len(),
    ensures
        json::member(d, d[i].key) is Some,
    decreases d.len(),
{
    if d[0].key != d[i].key {
        assert(d.drop_first()[i - 1] == d[i]);
        lemma_there(d.drop_first(), i - 1);
    }
}

/// What the swarm tells the dashboard, the dashboard does.
pub proof fn law_changes_arrive(c: crate::swarm::registry::Control)
    ensures
        system_effect(crate::swarm::registry::control_name(c)) == match c {
            crate::swarm::registry::Control::Reload => Effect::Reload,
            crate::swarm::registry::Control::TasksChanged => Effect::RefreshTasks,
            crate::swarm::registry::Control::ModelChanged => Effect::RefreshModel,
        },
{
    law_swarm_events(Seq::empty());
}

} // verus!
