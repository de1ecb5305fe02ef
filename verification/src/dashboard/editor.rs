//! Editing agent definitions and reviewing tasks.

use crate::dashboard::api;
use crate::dashboard::api::{
    AgentDef, AgentDefView, AgentInfo, AgentInfoView, Task, TaskView, TeamWithAgents,
    TeamWithAgentsView,
};
use crate::dashboard::definition;
use crate::text;
use vstd::prelude::*;

verus! {

/// Where an edited definition goes.
pub enum SaveTarget {
    /// Over the saved definition with this id.
    Update(String),
    /// Into this team as a new one.
    Create(String),
}

/// What a [`SaveTarget`] says.
pub enum SaveTargetView {
    Update(Seq<char>),
    Create(Seq<char>),
}

impl View for SaveTarget {
    type V = SaveTargetView;

    open spec fn view(&self) -> SaveTargetView {
        match self {
            SaveTarget::Update(id) => SaveTargetView::Update(id@),
            SaveTarget::Create(team) => SaveTargetView::Create(team@),
        }
    }
}

pub open spec fn def_option(d: Option<AgentDef>) -> Option<AgentDefView> {
    match d {
        Some(d) => Some(d@),
        None => None,
    }
}

/// The definition that is being edited, or a blank one of the user's own team.
pub open spec fn edited_or_blank(d: Option<AgentDefView>) -> AgentDefView {
    match d {
        Some(d) => d,
        None => definition::empty_def("custom"@),
    }
}

/// Where a definition goes: over the saved one, if it has an id.
pub open spec fn target_of(d: AgentDefView) -> SaveTargetView {
    if d.id.len() == 0 {
        SaveTargetView::Create(d.team_id)
    } else {
        SaveTargetView::Update(d.id)
    }
}

/// The definition that the edited document says, and where it goes.
pub fn save_def(md: &str, current: &Option<AgentDef>) -> (r: (AgentDef, SaveTarget))
    ensures
        r.0@ == definition::parsed_def(md@, edited_or_blank(def_option(*current))),
        r.1@ == target_of(r.0@),
{
    let updated = match current {
        Some(d) => definition::md_to_agent_def(md, d),
        None => {
            let blank = definition::blank_def("custom".to_string());
            definition::md_to_agent_def(md, &blank)
        },
    };
    let target = if updated.id.as_str().is_empty() {
        SaveTarget::Create(updated.team_id.clone())
    } else {
        SaveTarget::Update(updated.id.clone())
    };
    (updated, target)
}

/// The saved definition that would be deleted.
pub fn delete_target(current: &Option<AgentDef>) -> (r: Option<String>)
    ensures
        match r {
            Some(id) => current matches Some(d) && id@ == d.id@ && id@.len() > 0,
            None => current matches Some(d) ==> d.id@.len() == 0,
        },
{
    match current {
        Some(d) => if d.id.as_str().is_empty() {
            None
        } else {
            Some(d.id.clone())
        },
        None => None,
    }
}

/// Whether the button to delete the definition is shown: for a saved one that is not
/// built-in.
pub fn can_delete(current: &Option<AgentDef>) -> (r: bool)
    ensures
        r == (current matches Some(d) && d.id@.len() > 0 && !d.builtin),
{
    match current {
        Some(d) => !d.id.as_str().is_empty() && !d.builtin,
        None => false,
    }
}

/// The definition to spawn and the task for it, if there are both.
pub fn spawn_request(task: &str, current: &Option<AgentDef>) -> (r: Option<(String, String)>)
    ensures
        match r {
            Some((id, t)) => (current matches Some(d) && id@ == d.id@) && id@.len() > 0 && t@
                == text::trimmed(task@) && t@.len() > 0,
            None => text::trimmed(task@).len() == 0 || (current matches Some(d) ==> d.id@.len()
                == 0),
        },
{
    let t = text::trim(task);
    if t.is_empty() {
        return None;
    }
    match current {
        Some(d) => if d.id.as_str().is_empty() {
            None
        } else {
            Some((d.id.clone(), t.to_string()))
        },
        None => None,
    }
}

/// A saved definition with another model; `default` stands for none of its own.
pub open spec fn with_model(d: AgentDefView, choice: Seq<char>) -> AgentDefView {
    AgentDefView {
        model: if choice == "default"@ {
            None
        } else {
            Some(choice)
        },
        ..d
    }
}

/// A saved definition with the model that was chosen; one that is not saved is left alone.
pub fn choose_model(current: &Option<AgentDef>, choice: &str) -> (r: Option<AgentDef>)
    ensures
        match r {
            Some(n) => current matches Some(d) && d.id@.len() > 0 && n@ == with_model(
                d@,
                choice@,
            ),
            None => current matches Some(d) ==> d.id@.len() == 0,
        },
{
    match current {
        Some(d) => if d.id.as_str().is_empty() {
            None
        } else {
            let mut n = d.clone();
            n.model = if text::same(choice, "default") {
                None
            } else {
                Some(choice.to_string())
            };
            Some(n)
        },
        None => None,
    }
}

/// A definition with another interval and, if one was written, another task.
pub open spec fn with_schedule(d: AgentDefView, choice: Seq<char>, task: Seq<char>) -> AgentDefView {
    AgentDefView {
        schedule_mins: match text::u64_in(choice) {
            Some(n) => if n > 0 {
                Some(n)
            } else {
                None
            },
            None => None,
        },
        task: if task.len() > 0 {
            Some(task)
        } else {
            d.task
        },
        ..d
    }
}

/// A saved definition with the interval that was chosen; one that is not saved is left
/// alone.
pub fn choose_schedule(current: &Option<AgentDef>, choice: &str, task: &str) -> (r: Option<AgentDef>)
    ensures
        match r {
            Some(n) => current matches Some(d) && d.id@.len() > 0 && n@ == with_schedule(
                d@,
                choice@,
                task@,
            ),
            None => current matches Some(d) ==> d.id@.len() == 0,
        },
{
    match current {
        Some(d) => if d.id.as_str().is_empty() {
            None
        } else {
            let mut n = d.clone();
            n.schedule_mins = match text::parse_u64(choice) {
                Some(m) => if m > 0 {
                    Some(m)
                } else {
                    None
                },
                None => None,
            };
            if !task.is_empty() {
                n.task = Some(task.to_string());
            }
            Some(n)
        },
        None => None,
    }
}

/// How many agents run from the definition with a name.
pub open spec fn running_from(agents: Seq<AgentInfoView>, name: Seq<char>) -> nat
    decreases agents.len(),
{
    if agents.len() == 0 {
        0
    } else {
        running_from(agents.drop_last(), name) + if agents.last().def_name == Some(name) {
            1nat
        } else {
            0nat
        }
    }
}

/// How many agents run from the definition with a name.
pub fn active_count(agents: &Vec<AgentInfo>, name: &str) -> (r: usize)
    ensures
        r == running_from(api::agent_views(agents@), name@),
{
    let ghost all = api::agent_views(agents@);
    let mut n: usize = 0;
    let mut i: usize = 0;
    assert(all.take(0) =~= Seq::<AgentInfoView>::empty());
    while i < agents.len()
        invariant
            i <= agents.len(),
            n <= i,
            all == api::agent_views(agents@),
            n == running_from(all.take(i as int), name@),
        decreases agents.len() - i,
    {
        assert(all.take(i + 1).drop_last() =~= all.take(i as int));
        assert(all.take(i + 1).last() == agents[i as int]@);
        if let Some(d) = &agents[i].def_name {
            if text::same(d.as_str(), name) {
                n += 1;
            }
        }
        i += 1;
    }
    assert(all.take(i as int) =~= all);
    n
}

/// The user has a team of this name.
pub open spec fn has_team(ts: Seq<TeamWithAgentsView>, name: Seq<char>) -> bool {
    exists|i: int| 0 <= i < ts.len() && (#[trigger] ts[i]).team.name == name
}

/// Whether the team for the user's own definitions has to be made.
pub fn needs_custom_team(teams: &Vec<TeamWithAgents>) -> (r: bool)
    ensures
        r == !has_team(api::team_views(teams@), "custom"@),
{
    let ghost all = api::team_views(teams@);
    let mut i: usize = 0;
    while i < teams.len()
        invariant
            i <= teams.len(),
            all == api::team_views(teams@),
            forall|j: int| 0 <= j < i ==> (#[trigger] all[j]).team.name != "custom"@,
        decreases teams.len() - i,
    {
        assert(all[i as int] == teams[i as int]@);
        if text::same(teams[i].team.name.as_str(), "custom") {
            return false;
        }
        i += 1;
    }
    true
}

/// The first team that is not built-in, or the one for the user's own definitions.
pub open spec fn own_team(ts: Seq<TeamWithAgentsView>) -> Seq<char>
    decreases ts.len(),
{
    if ts.len() == 0 {
        "custom"@
    } else if !ts[0].team.builtin {
        ts[0].team.id
    } else {
        own_team(ts.drop_first())
    }
}

fn find_own_team(teams: &Vec<TeamWithAgents>) -> (r: String)
    ensures
        r@ == own_team(api::team_views(teams@)),
{
    let ghost all = api::team_views(teams@);
    let mut i: usize = 0;
    assert(all.skip(0) =~= all);
    while i < teams.len()
        invariant
            i <= teams.len(),
            all == api::team_views(teams@),
            own_team(all) == own_team(all.skip(i as int)),
        decreases teams.len() - i,
    {
        assert(all.skip(i as int)[0] == teams[i as int]@);
        assert(all.skip(i as int).drop_first() =~= all.skip(i + 1));
        if !teams[i].team.builtin {
            return teams[i].team.id.clone();
        }
        i += 1;
    }
    "custom".to_string()
}

/// What accepting a task does: the team for its definition, and the definition that its
/// body says, if it has a name.
pub fn accept_task(body: &str, teams: &Vec<TeamWithAgents>) -> (r: (String, Option<AgentDef>))
    ensures
        ({
            let team = own_team(api::team_views(teams@));
            let d = definition::parsed_def(body@, definition::empty_def(team));
            &&& r.0@ == team
            &&& def_option(r.1) == if d.name.len() == 0 {
                None
            } else {
                Some(d)
            }
        }),
{
    let team = find_own_team(teams);
    let def = definition::md_to_agent_def(body, &definition::blank_def(team.clone()));
    if def.name.as_str().is_empty() {
        (team, None)
    } else {
        (team, Some(def))
    }
}

/// What is shown of the task that is selected.
pub struct TaskEditor {
    pub selected: Option<String>,
    pub title: String,
    pub body: String,
    pub raw_mode: bool,
}

/// What a [`TaskEditor`] holds.
#[verifier::ext_equal]
pub struct TaskEditorView {
    pub selected: Option<Seq<char>>,
    pub title: Seq<char>,
    pub body: Seq<char>,
    pub raw_mode: bool,
}

impl View for TaskEditor {
    type V = TaskEditorView;

    open spec fn view(&self) -> TaskEditorView {
        TaskEditorView {
            selected: text::option_view(self.selected),
            title: self.title@,
            body: self.body@,
            raw_mode: self.raw_mode,
        }
    }
}

/// The editor once a task was selected, or none.
pub open spec fn selecting(e: TaskEditorView, t: Option<TaskView>) -> TaskEditorView {
    match t {
        Some(t) => TaskEditorView {
            selected: Some(t.id),
            title: t.title,
            body: t.body,
            raw_mode: false,
        },
        None => TaskEditorView {
            selected: None,
            title: Seq::empty(),
            body: Seq::empty(),
            ..e
        },
    }
}

impl TaskEditor {
    pub fn new() -> (r: TaskEditor)
        ensures
            r@ == (TaskEditorView {
                selected: None,
                title: Seq::empty(),
                body: Seq::empty(),
                raw_mode: false,
            }),
    {
        TaskEditor { selected: None, title: String::new(), body: String::new(), raw_mode: false }
    }

    /// Points the editor at a task, or at none.
    pub fn select_task(&mut self, t: Option<Task>)
        ensures
            final(self)@ == selecting(
                old(self)@,
                match t {
                    Some(t) => Some(t@),
                    None => None,
                },
            ),
    {
        match t {
            Some(t) => {
                self.selected = Some(t.id);
                self.title = t.title;
                self.body = t.body;
                self.raw_mode = false;
            },
            None => {
                self.selected = None;
                self.title = String::new();
                self.body = String::new();
            },
        }
    }
}

/// The status of the first task with an id.
pub open spec fn status_in(ts: Seq<TaskView>, id: Seq<char>) -> Option<Seq<char>>
    decreases ts.len(),
{
    if ts.len() == 0 {
        None
    } else if ts[0].id == id {
        Some(ts[0].status)
    } else {
        status_in(ts.drop_first(), id)
    }
}

fn find_status(tasks: &Vec<Task>, id: &str) -> (r: Option<String>)
    ensures
        text::option_view(r) == status_in(api::task_views(tasks@), id@),
{
    let ghost all = api::task_views(tasks@);
    let mut i: usize = 0;
    assert(all.skip(0) =~= all);
    while i < tasks.len()
        invariant
            i <= tasks.len(),
            all == api::task_views(tasks@),
            status_in(all, id@) == status_in(all.skip(i as int), id@),
        decreases tasks.len() - i,
    {
        assert(all.skip(i as int)[0] == tasks[i as int]@);
        assert(all.skip(i as int).drop_first() =~= all.skip(i + 1));
        if text::same(tasks[i].id.as_str(), id) {
            return Some(tasks[i].status.clone());
        }
        i += 1;
    }
    None
}

/// The status of the selected task: looked up among the open tasks, then among the settled
/// ones; empty where it is not found.
pub fn task_status(active: &Vec<Task>, history: &Vec<Task>, id: &str) -> (r: String)
    ensures
        r@ == match status_in(api::task_views(active@), id@) {
            Some(s) => s,
            None => match status_in(api::task_views(history@), id@) {
                Some(s) => s,
                None => Seq::empty(),
            },
        },
{
    match find_status(active, id) {
        Some(s) => s,
        None => match find_status(history, id) {
            Some(s) => s,
            None => String::new(),
        },
    }
}

/// Whether a task with this status can be accepted or rejected.
pub fn is_reviewable(status: &str) -> (r: bool)
    ensures
        r == (status@ == "proposed"@),
{
    text::same(status, "proposed")
}

/// What is saved as it was opened is the definition that was opened: opening a definition,
/// which writes its document, and saving it unchanged changes nothing.
pub proof fn law_saving_unchanged(d: AgentDefView)
    requires
        crate::dashboard::roundtrip::writable(d),
    ensures
        definition::parsed_def(definition::written_def(d), d) == d,
{
    crate::dashboard::roundtrip::law_definition_reads_back(d, d);
}

/// A saved definition is saved over itself, and one that was never saved is made anew in its
/// team.
pub proof fn law_where_a_definition_goes(d: AgentDefView)
    ensures
        d.id.len() > 0 ==> target_of(d) == SaveTargetView::Update(d.id),
        d.id.len() == 0 ==> target_of(d) == SaveTargetView::Create(d.team_id),
        edited_or_blank(Some(d)) == d,
{
}

/// The model that was chosen is the definition's own, and `default` gives it none; nothing else
/// changes.
pub proof fn law_chosen_model(d: AgentDefView, choice: Seq<char>)
    ensures
        choice != "default"@ ==> with_model(d, choice).model == Some(choice),
        with_model(d, "default"@).model is None,
        (AgentDefView { model: d.model, ..with_model(d, choice) }) == d,
{
}

/// The interval that was chosen is the definition's, and none where it is not a number above
/// zero; a task that was written is taken over with it; nothing else changes.
pub proof fn law_chosen_schedule(d: AgentDefView, n: u64, choice: Seq<char>, task: Seq<char>)
    ensures
        n > 0 ==> with_schedule(d, text::decimal(n as nat), task).schedule_mins == Some(n),
        with_schedule(d, text::decimal(0), task).schedule_mins is None,
        text::u64_in(choice) is None ==> with_schedule(d, choice, task).schedule_mins is None,
        task.len() > 0 ==> with_schedule(d, choice, task).task == Some(task),
        task.len() == 0 ==> with_schedule(d, choice, task).task == d.task,
        (AgentDefView {
            schedule_mins: d.schedule_mins,
            task: d.task,
            ..with_schedule(d, choice, task)
        }) == d,
{
    crate::text_facts::law_numeral_reads_back(n as nat, u64::MAX as nat);
    crate::text_facts::law_numeral_reads_back(0, u64::MAX as nat);
}

/// Every agent that runs from a definition counts once, and no other does.
pub proof fn law_running_agents_are_counted(
    before: Seq<AgentInfoView>,
    a: AgentInfoView,
    name: Seq<char>,
)
    ensures
        running_from(Seq::empty(), name) == 0,
        a.def_name == Some(name) ==> running_from(before.push(a), name) == running_from(
            before,
            name,
        ) + 1,
        a.def_name != Some(name) ==> running_from(before.push(a), name) == running_from(
            before,
            name,
        ),
{
    assert(before.push(a).drop_last() =~= before);
}

/// The user's own team is the first that is not built-in.
pub proof fn law_own_team(ts: Seq<TeamWithAgentsView>, i: int)
    ensures
        0 <= i < ts.len() && !ts[i].team.builtin && (forall|j: int|
            0 <= j < i ==> (#[trigger] ts[j]).team.builtin) ==> own_team(ts) == ts[i].team.id,
        (forall|j: int| 0 <= j < ts.len() ==> (#[trigger] ts[j]).team.builtin) ==> own_team(ts)
            == "custom"@,
    decreases ts.len(),
{
    if ts.len() > 0 {
        let rest = ts.drop_first();
        law_own_team(rest, i - 1);
        if 0 < i < ts.len() && !ts[i].team.builtin && (forall|j: int|
            0 <= j < i ==> (#[trigger] ts[j]).team.builtin) {
            assert(ts[0].team.builtin);
            assert(rest[i - 1] == ts[i]);
            assert forall|j: int| 0 <= j < i - 1 implies (#[trigger] rest[j]).team.builtin by {
                assert(rest[j] == ts[j + 1]);
            }
        }
        if forall|j: int| 0 <= j < ts.len() ==> (#[trigger] ts[j]).team.builtin {
            assert(ts[0].team.builtin);
            assert forall|j: int| 0 <= j < rest.len() implies (#[trigger] rest[j]).team.builtin by {
                assert(rest[j] == ts[j + 1]);
            }
        }
    }
}

/// The editor shows the task that was selected, as it is, and is empty where none is.
pub proof fn law_selected_task_is_shown(e: TaskEditorView, t: TaskView)
    ensures
        ({
            let s = selecting(e, Some(t));
            s.selected == Some(t.id) && s.title == t.title && s.body == t.body && !s.raw_mode
        }),
        ({
            let s = selecting(e, None);
            s.selected is None && s.title.len() == 0 && s.body.len() == 0
        }),
{
}

/// A task is found by its id, the first of several, with its own status.
pub proof fn law_status_of_a_task(ts: Seq<TaskView>, i: int, id: Seq<char>)
    ensures
        0 <= i < ts.len() && ts[i].id == id && (forall|j: int|
            0 <= j < i ==> (#[trigger] ts[j]).id != id) ==> status_in(ts, id) == Some(ts[i].status),
        (forall|j: int| 0 <= j < ts.len() ==> (#[trigger] ts[j]).id != id) ==> status_in(ts, id)
            is None,
    decreases ts.len(),
{
    if ts.len() > 0 {
        let rest = ts.drop_first();
        law_status_of_a_task(rest, i - 1, id);
        if 0 < i < ts.len() && ts[i].id == id && (forall|j: int|
            0 <= j < i ==> (#[trigger] ts[j]).id != id) {
            assert(ts[0].id != id);
            assert(rest[i - 1] == ts[i]);
            assert forall|j: int| 0 <= j < i - 1 implies (#[trigger] rest[j]).id != id by {
                assert(rest[j] == ts[j + 1]);
            }
        }
        if forall|j: int| 0 <= j < ts.len() ==> (#[trigger] ts[j]).id != id {
            assert(ts[0].id != id);
            assert forall|j: int| 0 <= j < rest.len() implies (#[trigger] rest[j]).id != id by {
                assert(rest[j] == ts[j + 1]);
            }
        }
    }
}

/// A team is there once one of its name is, and only then.
pub proof fn law_team_is_there(before: Seq<TeamWithAgentsView>, t: TeamWithAgentsView, name: Seq<char>)
    ensures
        !has_team(Seq::empty(), name),
        t.team.name == name ==> has_team(before.push(t), name),
        t.team.name != name ==> has_team(before.push(t), name) == has_team(before, name),
{
    let all = before.push(t);
    if t.team.name == name {
        assert(all[before.len() as int].team.name == name);
    } else {
        if has_team(before, name) {
            let i = choose|i: int| 0 <= i < before.len() && (#[trigger] before[i]).team.name == name;
            assert(all[i].team.name == name);
        }
        if has_team(all, name) {
            let i = choose|i: int| 0 <= i < all.len() && (#[trigger] all[i]).team.name == name;
            assert(before[i].team.name == name);
        }
    }
}

} // verus!
