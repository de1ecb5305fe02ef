//! What the dashboard shows: tabs, panels and the editors in them.

use crate::dashboard::api;
use crate::dashboard::api::{AgentDef, AgentDefView, TeamWithAgents, TeamWithAgentsView};
use crate::dashboard::definition;
use crate::dashboard::editor;
use crate::dashboard::editor::SaveTarget;
use crate::dashboard::toolbox;
use crate::text;
use vstd::prelude::*;

verus! {

/// A tab of the dashboard.
#[derive(Clone, Copy, Debug, PartialEq, Eq, Structural)]
pub enum ViewTab {
    Agents,
    Tasks,
    Settings,
}

/// Which tasks are listed.
#[derive(Clone, Copy, Debug, PartialEq, Eq, Structural)]
pub enum TaskFilter {
    Active,
    History,
}

/// What the panel beside the list of definitions shows.
#[derive(Clone, Copy, Debug, PartialEq, Eq, Structural)]
pub enum Panel {
    /// The timeline above the log of an agent.
    Log,
    /// The document of a definition.
    Document,
    /// The form to spawn an agent.
    Spawn,
    /// The timeline.
    Timeline,
}

/// The agents view.
pub struct AgentsPane {
    pub selected: Option<String>,
    pub editing: bool,
    pub md: String,
    pub def: Option<AgentDef>,
    pub raw_mode: bool,
    pub spawn_task: String,
    pub tools_visible: bool,
}

/// What an [`AgentsPane`] holds.
#[verifier::ext_equal]
pub struct AgentsPaneView {
    /// The agent whose log is shown.
    pub selected: Option<Seq<char>>,
    /// Whether a definition is open.
    pub editing: bool,
    /// Its document.
    pub md: Seq<char>,
    pub def: Option<AgentDefView>,
    /// Whether its document is shown.
    pub raw_mode: bool,
    /// The task that was written for it.
    pub spawn_task: Seq<char>,
    /// Whether the tools are shown.
    pub tools_visible: bool,
}

impl View for AgentsPane {
    type V = AgentsPaneView;

    open spec fn view(&self) -> AgentsPaneView {
        AgentsPaneView {
            selected: text::option_view(self.selected),
            editing: self.editing,
            md: self.md@,
            def: editor::def_option(self.def),
            raw_mode: self.raw_mode,
            spawn_task: self.spawn_task@,
            tools_visible: self.tools_visible,
        }
    }
}

/// What the panel shows: the log of a selected agent before an open definition.
pub open spec fn panel(p: AgentsPaneView) -> Panel {
    if p.selected is Some {
        Panel::Log
    } else if p.editing {
        if p.raw_mode {
            Panel::Document
        } else {
            Panel::Spawn
        }
    } else {
        Panel::Timeline
    }
}

/// The view with a definition opened.
pub open spec fn opened(p: AgentsPaneView, d: AgentDefView) -> AgentsPaneView {
    AgentsPaneView {
        selected: None,
        editing: true,
        md: definition::written_def(d),
        def: Some(d),
        raw_mode: false,
        spawn_task: Seq::empty(),
        ..p
    }
}

/// The view with the open definition changed in place, its document with it.
pub open spec fn changed(p: AgentsPaneView, d: AgentDefView) -> AgentsPaneView {
    AgentsPaneView { def: Some(d), md: definition::written_def(d), ..p }
}

impl AgentsPane {
    pub fn new() -> (r: AgentsPane)
        ensures
            r@ == (AgentsPaneView {
                selected: None,
                editing: false,
                md: Seq::empty(),
                def: None,
                raw_mode: false,
                spawn_task: Seq::empty(),
                tools_visible: false,
            }),
    {
        AgentsPane {
            selected: None,
            editing: false,
            md: String::new(),
            def: None,
            raw_mode: false,
            spawn_task: String::new(),
            tools_visible: false,
        }
    }

    /// What the panel shows.
    pub fn panel(&self) -> (r: Panel)
        ensures
            r == panel(self@),
    {
        if self.selected.is_some() {
            Panel::Log
        } else if self.editing {
            if self.raw_mode {
                Panel::Document
            } else {
                Panel::Spawn
            }
        } else {
            Panel::Timeline
        }
    }

    /// Whether the open definition is built-in.
    pub fn is_read_only(&self) -> (r: bool)
        ensures
            r == (self@.def matches Some(d) && d.builtin),
    {
        match &self.def {
            Some(d) => d.builtin,
            None => false,
        }
    }

    /// The name that stands above the open definition.
    pub fn heading(&self) -> (r: String)
        ensures
            r@ == match self@.def {
                Some(d) => d.name,
                None => "agent"@,
            },
    {
        match &self.def {
            Some(d) => d.name.clone(),
            None => "agent".to_string(),
        }
    }

    /// The hint where a task is asked for.
    pub fn task_hint(&self) -> (r: String)
        ensures
            r@ == match self@.def {
                Some(d) => match d.task_hint {
                    Some(h) => h,
                    None => "Describe a task for this agent…"@,
                },
                None => "Describe a task for this agent…"@,
            },
    {
        match &self.def {
            Some(d) => match &d.task_hint {
                Some(h) => h.clone(),
                None => "Describe a task for this agent…".to_string(),
            },
            None => "Describe a task for this agent…".to_string(),
        }
    }

    /// Opens a definition.
    pub fn open_def(&mut self, d: AgentDef)
        ensures
            final(self)@ == opened(old(self)@, d@),
    {
        self.md = definition::agent_def_to_md(&d);
        self.def = Some(d);
        self.raw_mode = false;
        self.spawn_task = String::new();
        self.editing = true;
        self.selected = None;
    }

    /// Shows the log of an agent.
    pub fn select_agent(&mut self, id: &str)
        ensures
            final(self)@ == (AgentsPaneView {
                selected: Some(id@),
                editing: false,
                ..old(self)@
            }),
    {
        self.selected = Some(id.to_string());
        self.editing = false;
    }

    /// Goes to the agents view: nothing is open in it.
    pub fn enter(&mut self)
        ensures
            final(self)@ == (AgentsPaneView { selected: None, editing: false, ..old(self)@ }),
    {
        self.editing = false;
        self.selected = None;
    }

    /// Reads the edited document: the definition and where it is saved.
    pub fn save(&mut self) -> (r: (AgentDef, SaveTarget))
        ensures
            r.0@ == definition::parsed_def(old(self)@.md, editor::edited_or_blank(old(self)@.def)),
            r.1@ == editor::target_of(r.0@),
            final(self)@ == (AgentsPaneView { raw_mode: false, ..old(self)@ }),
    {
        let r = editor::save_def(self.md.as_str(), &self.def);
        self.raw_mode = false;
        r
    }

    /// The definition was saved: it stays open if it was.
    pub fn saved(&mut self, d: AgentDef)
        ensures
            final(self)@ == if old(self)@.editing {
                (AgentsPaneView { def: Some(d@), ..old(self)@ })
            } else {
                old(self)@
            },
    {
        if self.editing {
            self.def = Some(d);
        }
    }

    /// The id of the definition to delete, which is closed.
    pub fn delete(&mut self) -> (r: Option<String>)
        ensures
            match r {
                Some(id) => (old(self)@.def matches Some(d) && id@ == d.id) && id@.len() > 0
                    && final(self)@ == (AgentsPaneView { editing: false, ..old(self)@ }),
                None => (old(self)@.def matches Some(d) ==> d.id.len() == 0) && final(self)@
                    == old(self)@,
            },
    {
        let target = editor::delete_target(&self.def);
        if target.is_some() {
            self.editing = false;
        }
        target
    }

    /// The definition to spawn and its task; the definition is closed.
    pub fn spawn(&mut self) -> (r: Option<(String, String)>)
        ensures
            match r {
                Some((id, t)) => (old(self)@.def matches Some(d) && id@ == d.id) && id@.len() > 0
                    && t@ == text::trimmed(old(self)@.spawn_task) && t@.len() > 0 && final(self)@
                    == (AgentsPaneView { editing: false, ..old(self)@ }),
                None => (text::trimmed(old(self)@.spawn_task).len() == 0 || (old(self)@.def
                    matches Some(d) ==> d.id.len() == 0)) && final(self)@ == old(self)@,
            },
    {
        let req = editor::spawn_request(self.spawn_task.as_str(), &self.def);
        if req.is_some() {
            self.editing = false;
        }
        req
    }

    fn replace(&mut self, d: AgentDef)
        ensures
            final(self)@ == changed(old(self)@, d@),
    {
        self.md = definition::agent_def_to_md(&d);
        self.def = Some(d);
    }

    /// Another model was chosen; hands out the definition to save, if it is a saved one.
    pub fn choose_model(&mut self, choice: &str) -> (r: Option<AgentDef>)
        ensures
            match r {
                Some(n) => (old(self)@.def matches Some(d) && d.id.len() > 0 && n@
                    == editor::with_model(d, choice@)) && final(self)@ == changed(
                    old(self)@,
                    n@,
                ),
                None => (old(self)@.def matches Some(d) ==> d.id.len() == 0) && final(self)@
                    == old(self)@,
            },
    {
        let n = editor::choose_model(&self.def, choice);
        if let Some(d) = &n {
            self.replace(d.clone());
        }
        n
    }

    /// Another interval was chosen; hands out the definition to save, if it is a saved one.
    pub fn choose_schedule(&mut self, choice: &str) -> (r: Option<AgentDef>)
        ensures
            match r {
                Some(n) => (old(self)@.def matches Some(d) && d.id.len() > 0 && n@
                    == editor::with_schedule(d, choice@, old(self)@.spawn_task)) && final(self)@
                    == changed(old(self)@, n@),
                None => (old(self)@.def matches Some(d) ==> d.id.len() == 0) && final(self)@
                    == old(self)@,
            },
    {
        let n = editor::choose_schedule(&self.def, choice, self.spawn_task.as_str());
        if let Some(d) = &n {
            self.replace(d.clone());
        }
        n
    }

    /// A tool was ticked or not; hands out the definition, which is saved if it has an id.
    pub fn toggle_tool(&mut self, tool_name: &str) -> (r: Option<AgentDef>)
        ensures
            match old(self)@.def {
                Some(d) => ({
                    let n = AgentDefView {
                        tools: toolbox::toggled(d.tools, tool_name@),
                        ..d
                    };
                    editor::def_option(r) == Some(n) && final(self)@ == changed(old(self)@, n)
                }),
                None => r is None && final(self)@ == old(self)@,
            },
    {
        let n = match &self.def {
            Some(d) => toolbox::toggle_tool(d, tool_name),
            None => {
                return None;
            },
        };
        self.replace(n.clone());
        Some(n)
    }

    /// All tools of a server were ticked or not; hands out the definition, which is saved if
    /// it has an id.
    pub fn toggle_group(
        &mut self,
        mcp_tools: &Vec<api::McpTool>,
        server_name: &str,
        select: bool,
    ) -> (r: Option<AgentDef>)
        ensures
            match old(self)@.def {
                Some(d) => ({
                    let n = AgentDefView {
                        tools: toolbox::switched(
                            d.tools,
                            toolbox::server_tools(api::tool_views(mcp_tools@), server_name@),
                            select,
                        ),
                        ..d
                    };
                    editor::def_option(r) == Some(n) && final(self)@ == changed(old(self)@, n)
                }),
                None => r is None && final(self)@ == old(self)@,
            },
    {
        let n = match &self.def {
            Some(d) => toolbox::toggle_group_tools(d, mcp_tools, server_name, select),
            None => {
                return None;
            },
        };
        self.replace(n.clone());
        Some(n)
    }
}

/// The definitions with the names of their teams.
pub open spec fn listed(ts: Seq<TeamWithAgentsView>) -> Seq<(Seq<char>, AgentDefView)>
    decreases ts.len(),
{
    if ts.len() == 0 {
        Seq::empty()
    } else {
        let t = ts.last();
        listed(ts.drop_last()) + t.agents.map_values(|d: AgentDefView| (t.team.name, d))
    }
}

pub open spec fn item_views(v: Seq<(String, AgentDef)>) -> Seq<(Seq<char>, AgentDefView)> {
    v.map_values(|i: (String, AgentDef)| (i.0@, i.1@))
}

/// The definitions with the names of their teams, in order.
pub fn list_definitions(teams: &Vec<TeamWithAgents>) -> (r: Vec<(String, AgentDef)>)
    ensures
        item_views(r@) == listed(api::team_views(teams@)),
{
    let mut out: Vec<(String, AgentDef)> = Vec::new();
    let ghost ts = api::team_views(teams@);
    let mut i: usize = 0;
    assert(ts.take(0) =~= Seq::<TeamWithAgentsView>::empty());
    assert(item_views(out@) =~= Seq::<(Seq<char>, AgentDefView)>::empty());
    while i < teams.len()
        invariant
            i <= teams.len(),
            ts == api::team_views(teams@),
            item_views(out@) == listed(ts.take(i as int)),
        decreases teams.len() - i,
    {
        let t = &teams[i];
        let ghost head = item_views(out@);
        let ghost here = api::def_views(t.agents@).map_values(
            |d: AgentDefView| (t.team.name@, d),
        );
        proof {
            assert(ts.take(i + 1).drop_last() =~= ts.take(i as int));
            assert(ts.take(i + 1).last() == t@);
            assert(head + here.take(0) =~= head);
        }
        let mut j: usize = 0;
        while j < t.agents.len()
            invariant
                j <= t.agents.len(),
                here == api::def_views(t.agents@).map_values(
                    |d: AgentDefView| (t.team.name@, d),
                ),
                item_views(out@) == head + here.take(j as int),
            decreases t.agents.len() - j,
        {
            let ghost before = item_views(out@);
            let d = t.agents[j].clone();
            let ghost v = d@;
            out.push((t.team.name.clone(), d));
            assert(item_views(out@) =~= before.push((t.team.name@, v)));
            j += 1;
            assert(item_views(out@) =~= head + here.take(j as int));
        }
        assert(here.take(j as int) =~= here);
        i += 1;
    }
    assert(ts.take(i as int) =~= ts);
    out
}

/// The pane with the MCP servers.
pub struct McpPane {
    pub editing: bool,
    pub buffer: String,
    pub status: String,
}

/// What an [`McpPane`] holds.
#[verifier::ext_equal]
pub struct McpPaneView {
    pub editing: bool,
    pub buffer: Seq<char>,
    pub status: Seq<char>,
}

impl View for McpPane {
    type V = McpPaneView;

    open spec fn view(&self) -> McpPaneView {
        McpPaneView { editing: self.editing, buffer: self.buffer@, status: self.status@ }
    }
}

impl McpPane {
    pub fn new() -> (r: McpPane)
        ensures
            r@ == (McpPaneView { editing: false, buffer: Seq::empty(), status: Seq::empty() }),
    {
        McpPane { editing: false, buffer: String::new(), status: String::new() }
    }

    /// Starts to edit the servers, which are written as this JSON text.
    pub fn start_edit(&mut self, json: String)
        ensures
            final(self)@ == (McpPaneView { editing: true, buffer: json@, status: Seq::empty() }),
    {
        self.buffer = json;
        self.editing = true;
        self.status = String::new();
    }

    /// Gives the editing up.
    pub fn cancel_edit(&mut self)
        ensures
            final(self)@ == (McpPaneView {
                editing: false,
                status: Seq::empty(),
                ..old(self)@
            }),
    {
        self.editing = false;
        self.status = String::new();
    }

    /// The JSON text of the servers to save; what is wrong with the edited text is shown.
    pub fn save(&mut self) -> (r: Option<String>)
        ensures
            match crate::json::json_fault(old(self)@.buffer) {
                Some(e) => r is None && final(self)@ == (McpPaneView {
                    status: "Error: Invalid JSON ("@ + e + ")"@,
                    ..old(self)@
                }),
                None => (r matches Some(t) && t@ == crate::mcp::servers_text(
                    old(self)@.buffer,
                    crate::json::json_object(old(self)@.buffer),
                )) && final(self)@ == old(self)@,
            },
    {
        match crate::mcp::edited_servers(self.buffer.as_str()) {
            Ok(t) => Some(t),
            Err(e) => {
                self.status = e;
                None
            },
        }
    }

    /// The edited text is JSON, but does not describe servers.
    pub fn malformed(&mut self, e: &str)
        ensures
            final(self)@ == (McpPaneView {
                status: "Error: Invalid MCP server format ("@ + e@ + ")"@,
                ..old(self)@
            }),
    {
        let mut m = "Error: Invalid MCP server format (".to_string();
        m.append(e);
        m.append(")");
        self.status = m;
    }

    /// The servers were saved, or could not be.
    pub fn saved(&mut self, outcome: Result<(), String>)
        ensures
            final(self)@ == match outcome {
                Ok(_) => (McpPaneView {
                    editing: false,
                    status: "Configuration saved successfully"@,
                    ..old(self)@
                }),
                Err(e) => (McpPaneView {
                    status: "Error saving configuration: "@ + e@,
                    ..old(self)@
                }),
            },
    {
        match outcome {
            Ok(_) => {
                self.editing = false;
                self.status = "Configuration saved successfully".to_string();
            },
            Err(e) => {
                self.status = text::cat("Error saving configuration: ", e.as_str());
            },
        }
    }
}

/// Opening a definition always shows the form to spawn it, with its document beside it.
pub proof fn law_open_shows_the_definition(p: AgentsPaneView, d: AgentDefView)
    ensures
        panel(opened(p, d)) == Panel::Spawn,
        opened(p, d).def == Some(d),
{
}

/// The document beside the open definition says the definition, after opening it and after
/// every change of it in place.
pub proof fn law_document_matches(p: AgentsPaneView, d: AgentDefView)
    requires
        crate::dashboard::roundtrip::writable(d),
    ensures
        definition::parsed_def(opened(p, d).md, d) == d,
        definition::parsed_def(changed(p, d).md, d) == d,
{
    crate::dashboard::roundtrip::law_definition_reads_back(d, d);
}

/// The log of a selected agent comes before an open definition, and that before the timeline.
pub proof fn law_panel(p: AgentsPaneView, id: Seq<char>)
    ensures
        panel(AgentsPaneView { selected: Some(id), ..p }) == Panel::Log,
        panel(AgentsPaneView { selected: None, editing: true, raw_mode: true, ..p })
            == Panel::Document,
        panel(AgentsPaneView { selected: None, editing: true, raw_mode: false, ..p })
            == Panel::Spawn,
        panel(AgentsPaneView { selected: None, editing: false, ..p }) == Panel::Timeline,
{
}

/// A definition that is changed in place is the one that is open, and the rest of the view stays
/// as it is; one that is opened starts with an empty task.
pub proof fn law_change_in_place(p: AgentsPaneView, d: AgentDefView)
    ensures
        changed(p, d).def == Some(d),
        changed(p, d).selected == p.selected && changed(p, d).editing == p.editing && changed(
            p,
            d,
        ).raw_mode == p.raw_mode && changed(p, d).spawn_task == p.spawn_task && changed(
            p,
            d,
        ).tools_visible == p.tools_visible,
        panel(changed(p, d)) == panel(p),
        opened(p, d).spawn_task.len() == 0 && opened(p, d).tools_visible == p.tools_visible,
        changed(opened(p, d), d) == opened(p, d),
{
}

/// Every definition of every team is listed once, in order, under the name of its team.
pub proof fn law_definitions_are_listed(before: Seq<TeamWithAgentsView>, t: TeamWithAgentsView, i: int)
    ensures
        listed(Seq::empty()).len() == 0,
        ({
            let old_list = listed(before);
            let all = listed(before.push(t));
            &&& all.len() == old_list.len() + t.agents.len()
            &&& all.take(old_list.len() as int) == old_list
            &&& 0 <= i < t.agents.len() ==> all[old_list.len() + i] == (t.team.name, t.agents[i])
        }),
{
    assert(before.push(t).drop_last() =~= before);
    let old_list = listed(before);
    assert(listed(before.push(t)).take(old_list.len() as int) =~= old_list);
}

} // verus!
