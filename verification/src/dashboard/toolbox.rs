//! The tools of an agent definition as they are chosen.

use crate::dashboard::api;
use crate::dashboard::api::{AgentDef, AgentDefView, McpTool, McpToolView};
use crate::order;
use crate::text;
use vstd::prelude::*;

verus! {

/// The tools that are always on offer: their names, titles and descriptions.
pub fn builtin_tools() -> (r: Vec<(&'static str, &'static str, &'static str)>)
    ensures
        r@.map_values(|t: (&'static str, &'static str, &'static str)| (t.0@, t.1@, t.2@)) == seq![
            ("write_file"@, "Write File"@, "Create or overwrite files"@),
            ("read_file"@, "Read File"@, "Read file contents"@),
            ("delete_file"@, "Delete File"@, "Delete files from the filesystem"@),
            ("run_command"@, "Run Command"@, "Execute shell commands"@),
            ("web_search"@, "Web Search"@, "Search the web for information"@),
            ("add_task"@, "Add Task"@, "Add tasks to the task queue"@),
            ("spawn_agent"@, "Spawn Agent"@, "Spawn other agents"@),
        ],
{
    let r = vec![
        ("write_file", "Write File", "Create or overwrite files"),
        ("read_file", "Read File", "Read file contents"),
        ("delete_file", "Delete File", "Delete files from the filesystem"),
        ("run_command", "Run Command", "Execute shell commands"),
        ("web_search", "Web Search", "Search the web for information"),
        ("add_task", "Add Task", "Add tasks to the task queue"),
        ("spawn_agent", "Spawn Agent", "Spawn other agents"),
    ];
    assert(r@.map_values(|t: (&'static str, &'static str, &'static str)| (t.0@, t.1@, t.2@))
        =~= seq![
        ("write_file"@, "Write File"@, "Create or overwrite files"@),
        ("read_file"@, "Read File"@, "Read file contents"@),
        ("delete_file"@, "Delete File"@, "Delete files from the filesystem"@),
        ("run_command"@, "Run Command"@, "Execute shell commands"@),
        ("web_search"@, "Web Search"@, "Search the web for information"@),
        ("add_task"@, "Add Task"@, "Add tasks to the task queue"@),
        ("spawn_agent"@, "Spawn Agent"@, "Spawn other agents"@),
    ]);
    r
}

/// A list of names without one of them.
pub open spec fn without(names: Seq<Seq<char>>, name: Seq<char>) -> Seq<Seq<char>>
    decreases names.len(),
{
    if names.len() == 0 {
        Seq::empty()
    } else if names.last() == name {
        without(names.drop_last(), name)
    } else {
        without(names.drop_last(), name).push(names.last())
    }
}

/// A list of names with one of them taken out if it is there and added if it is not.
pub open spec fn toggled(names: Seq<Seq<char>>, name: Seq<char>) -> Seq<Seq<char>> {
    if names.contains(name) {
        without(names, name)
    } else {
        names.push(name)
    }
}

fn remove_name(names: &Vec<String>, name: &str) -> (r: Vec<String>)
    ensures
        text::views(r@) == without(text::views(names@), name@),
{
    let ghost all = text::views(names@);
    let mut out: Vec<String> = Vec::new();
    let mut i: usize = 0;
    assert(text::views(out@) =~= without(all.take(0), name@));
    while i < names.len()
        invariant
            i <= names.len(),
            all == text::views(names@),
            text::views(out@) == without(all.take(i as int), name@),
        decreases names.len() - i,
    {
        let ghost before = text::views(out@);
        assert(all.take(i + 1).drop_last() =~= all.take(i as int));
        assert(all.take(i + 1).last() == names[i as int]@);
        if !text::same(names[i].as_str(), name) {
            out.push(names[i].clone());
            assert(text::views(out@) =~= before.push(names[i as int]@));
        }
        i += 1;
    }
    assert(all.take(i as int) =~= all);
    out
}

fn add_name(names: &Vec<String>, name: &str) -> (r: Vec<String>)
    ensures
        text::views(r@) == text::views(names@).push(name@),
{
    let mut out = text::copy_strings(names);
    out.push(name.to_string());
    assert(text::views(out@) =~= text::views(names@).push(name@));
    out
}

/// The definition with a tool taken out if it has it and added if it has not.
pub fn toggle_tool(def: &AgentDef, tool_name: &str) -> (r: AgentDef)
    ensures
        r@ == (AgentDefView { tools: toggled(def@.tools, tool_name@), ..def@ }),
{
    let mut d = def.clone();
    d.tools = if text::list_contains(&def.tools, tool_name) {
        remove_name(&def.tools, tool_name)
    } else {
        add_name(&def.tools, tool_name)
    };
    d
}

/// The names of a server's tools, in order.
pub open spec fn server_tools(tools: Seq<McpToolView>, server: Seq<char>) -> Seq<Seq<char>>
    decreases tools.len(),
{
    if tools.len() == 0 {
        Seq::empty()
    } else {
        let before = server_tools(tools.drop_last(), server);
        if tools.last().server_name == server {
            before.push(tools.last().name)
        } else {
            before
        }
    }
}

/// A list of names with some of them added, or taken out, one after the other.
pub open spec fn switched(names: Seq<Seq<char>>, some: Seq<Seq<char>>, select: bool) -> Seq<
    Seq<char>,
>
    decreases some.len(),
{
    if some.len() == 0 {
        names
    } else {
        let before = switched(names, some.drop_last(), select);
        if !select {
            without(before, some.last())
        } else if before.contains(some.last()) {
            before
        } else {
            before.push(some.last())
        }
    }
}

/// The definition with all tools of a server added or taken out.
pub fn toggle_group_tools(
    def: &AgentDef,
    mcp_tools: &Vec<McpTool>,
    server_name: &str,
    select: bool,
) -> (r: AgentDef)
    ensures
        r@ == (AgentDefView {
            tools: switched(
                def@.tools,
                server_tools(api::tool_views(mcp_tools@), server_name@),
                select,
            ),
            ..def@
        }),
{
    let ghost all = api::tool_views(mcp_tools@);
    let mut tools = text::copy_strings(&def.tools);
    let mut i: usize = 0;
    assert(all.take(0) =~= Seq::<McpToolView>::empty());
    while i < mcp_tools.len()
        invariant
            i <= mcp_tools.len(),
            all == api::tool_views(mcp_tools@),
            text::views(tools@) == switched(
                def@.tools,
                server_tools(all.take(i as int), server_name@),
                select,
            ),
        decreases mcp_tools.len() - i,
    {
        assert(all.take(i + 1).drop_last() =~= all.take(i as int));
        assert(all.take(i + 1).last() == mcp_tools[i as int]@);
        let t = &mcp_tools[i];
        if text::same(t.server_name.as_str(), server_name) {
            proof {
                let names = server_tools(all.take(i as int), server_name@);
                assert(names.push(t.name@).drop_last() =~= names);
            }
            if select {
                if !text::list_contains(&tools, t.name.as_str()) {
                    tools = add_name(&tools, t.name.as_str());
                }
            } else {
                tools = remove_name(&tools, t.name.as_str());
            }
        }
        i += 1;
    }
    assert(all.take(i as int) =~= all);
    let mut d = def.clone();
    d.tools = tools;
    d
}

/// The group that a tool is shown in.
pub open spec fn group_of(t: McpToolView) -> Seq<char> {
    if t.server_name.len() == 0 {
        "mcp"@
    } else {
        t.server_name
    }
}

/// A group of tools.
pub struct Group {
    pub name: String,
    /// The positions of its tools.
    pub members: Vec<usize>,
}

pub open spec fn in_group(tools: Seq<McpToolView>, group: Seq<char>, i: int) -> bool {
    0 <= i < tools.len() && group_of(tools[i]) == group
}

/// `g` is the group with its name: it lists the positions of its tools in order.
pub open spec fn group_ok(g: Group, tools: Seq<McpToolView>) -> bool {
    &&& forall|a: int| 0 <= a < g.members.len() ==> in_group(tools, g.name@, (#[trigger] g.members@[a]) as int)
    &&& forall|a: int, b: int|
        0 <= a < b < g.members.len() ==> (#[trigger] g.members@[a]) < (#[trigger] g.members@[b])
    &&& forall|i: int| #[trigger]
        in_group(tools, g.name@, i) ==> exists|a: int|
            0 <= a < g.members.len() && #[trigger] g.members@[a] == i
}

/// One of the groups has this name.
pub open spec fn has_group(gs: Seq<Group>, name: Seq<char>) -> bool {
    exists|a: int| 0 <= a < gs.len() && (#[trigger] gs[a]).name@ == name
}

/// `gs` are the groups of tools: one for each name, by name, none of them empty.
pub open spec fn groups_ok(gs: Seq<Group>, tools: Seq<McpToolView>) -> bool {
    &&& forall|a: int| 0 <= a < gs.len() ==> group_ok(#[trigger] gs[a], tools) && gs[a].members.len() > 0
    &&& forall|a: int, b: int|
        0 <= a < b < gs.len() ==> order::before((#[trigger] gs[a]).name@, (#[trigger] gs[b]).name@)
    &&& forall|i: int| 0 <= i < tools.len() ==> has_group(gs, group_of(#[trigger] tools[i]))
}

fn group_name(t: &McpTool) -> (r: String)
    ensures
        r@ == group_of(t@),
{
    if t.server_name.as_str().is_empty() {
        "mcp".to_string()
    } else {
        t.server_name.clone()
    }
}

/// The positions of the tools of a group.
fn members_of(tools: &Vec<McpTool>, name: String) -> (r: Group)
    ensures
        r.name@ == name@,
        group_ok(r, api::tool_views(tools@)),
{
    let ghost all = api::tool_views(tools@);
    let mut members: Vec<usize> = Vec::new();
    let mut i: usize = 0;
    while i < tools.len()
        invariant
            i <= tools.len(),
            all == api::tool_views(tools@),
            forall|a: int|
                0 <= a < members.len() ==> (#[trigger] members@[a]) < i && in_group(
                    all,
                    name@,
                    members@[a] as int,
                ),
            forall|a: int, b: int|
                0 <= a < b < members.len() ==> (#[trigger] members@[a]) < (#[trigger] members@[b]),
            forall|j: int|
                0 <= j < i && #[trigger] in_group(all, name@, j) ==> exists|a: int|
                    0 <= a < members.len() && #[trigger] members@[a] == j,
        decreases tools.len() - i,
    {
        let ghost before = members@;
        assert(all[i as int] == tools[i as int]@);
        let g = group_name(&tools[i]);
        let mine = text::same(g.as_str(), name.as_str());
        assert(mine == in_group(all, name@, i as int));
        if mine {
            members.push(i);
        }
        proof {
            assert forall|j: int| 0 <= j < i + 1 && #[trigger] in_group(all, name@, j) implies exists|
                a: int,
            |
                0 <= a < members.len() && #[trigger] members@[a] == j by {
                if j < i {
                    let a = choose|a: int| 0 <= a < before.len() && #[trigger] before[a] == j;
                    assert(members@[a] == j);
                } else {
                    assert(members@[before.len() as int] == j);
                }
            }
            assert forall|a: int| 0 <= a < members.len() implies (#[trigger] members@[a]) < i + 1
                && in_group(all, name@, members@[a] as int) by {
                if a < before.len() {
                    assert(members@[a] == before[a]);
                }
            }
            assert forall|a: int, b: int| 0 <= a < b < members.len() implies (
            #[trigger] members@[a]) < (#[trigger] members@[b]) by {
                assert(members@[a] == before[a]);
                if b < before.len() {
                    assert(members@[b] == before[b]);
                }
            }
        }
        i += 1;
    }
    let g = Group { name, members };
    proof {
        assert(all.len() == tools.len());
        assert forall|j: int| #[trigger] in_group(all, g.name@, j) implies exists|a: int|
            0 <= a < g.members.len() && #[trigger] g.members@[a] == j by {
            assert(in_group(all, name@, j));
            let a = choose|a: int| 0 <= a < members.len() && #[trigger] members@[a] == j;
            assert(g.members@[a] == j);
        }
    }
    g
}

/// Groups the tools of MCP servers by server, in the order of the servers' names; a tool
/// without a server stands in the group `mcp`.
pub fn group_by_server(tools: &Vec<McpTool>) -> (r: Vec<Group>)
    ensures
        groups_ok(r@, api::tool_views(tools@)),
{
    let ghost all = api::tool_views(tools@);
    let mut out: Vec<Group> = Vec::new();
    let mut i: usize = 0;
    while i < tools.len()
        invariant
            i <= tools.len(),
            all == api::tool_views(tools@),
            forall|a: int|
                0 <= a < out.len() ==> group_ok(#[trigger] out@[a], all) && out@[a].members.len()
                    > 0,
            forall|a: int, b: int|
                0 <= a < b < out.len() ==> order::before(
                    (#[trigger] out@[a]).name@,
                    (#[trigger] out@[b]).name@,
                ),
            forall|j: int| 0 <= j < i ==> has_group(out@, group_of(#[trigger] all[j])),
        decreases tools.len() - i,
    {
        assert(all[i as int] == tools[i as int]@);
        let name = group_name(&tools[i]);
        let mut p: usize = 0;
        while p < out.len() && order::is_before(out[p].name.as_str(), name.as_str())
            invariant
                p <= out.len(),
                forall|a: int| 0 <= a < p ==> order::before((#[trigger] out@[a]).name@, name@),
            decreases out.len() - p,
        {
            p += 1;
        }
        let known = p < out.len() && text::same(out[p].name.as_str(), name.as_str());
        let ghost before = out@;
        let ghost nv = name@;
        if !known {
            let g = members_of(tools, name);
            proof {
                assert(in_group(all, nv, i as int));
                let a = choose|a: int| 0 <= a < g.members.len() && #[trigger] g.members@[a] == i;
                assert(g.members.len() > 0);
                if p < before.len() {
                    order::lemma_before_total(before[p as int].name@, nv);
                    assert(order::before(nv, before[p as int].name@));
                }
                assert forall|a: int| p <= a < before.len() implies order::before(
                    nv,
                    (#[trigger] before[a]).name@,
                ) by {
                    if a > p {
                        order::lemma_before_transitive(
                            nv,
                            before[p as int].name@,
                            before[a].name@,
                        );
                    }
                }
            }
            out.insert(p, g);
            proof {
                assert forall|a: int| 0 <= a < out.len() implies group_ok(#[trigger] out@[a], all)
                    && out@[a].members.len() > 0 by {
                    if a < p {
                        assert(out@[a] == before[a]);
                    } else if a > p {
                        assert(out@[a] == before[a - 1]);
                    }
                }
                assert forall|a: int, b: int| 0 <= a < b < out.len() implies order::before(
                    (#[trigger] out@[a]).name@,
                    (#[trigger] out@[b]).name@,
                ) by {
                    let a2 = if a < p {
                        a
                    } else {
                        a - 1
                    };
                    let b2 = if b < p {
                        b
                    } else {
                        b - 1
                    };
                    if a != p {
                        assert(out@[a] == before[a2]);
                    }
                    if b != p {
                        assert(out@[b] == before[b2]);
                    }
                }
                assert forall|j: int| 0 <= j < i + 1 implies has_group(
                    out@,
                    group_of(#[trigger] all[j]),
                ) by {
                    if j < i {
                        assert(has_group(before, group_of(all[j])));
                        let a = choose|a: int|
                            0 <= a < before.len() && (#[trigger] before[a]).name@ == group_of(
                                all[j],
                            );
                        let a2 = if a < p {
                            a
                        } else {
                            a + 1
                        };
                        assert(out@[a2] == before[a]);
                    } else {
                        assert(out@[p as int].name@ == group_of(all[j]));
                    }
                }
            }
        } else {
            assert(out@[p as int].name@ == group_of(all[i as int]));
        }
        i += 1;
    }
    assert(all.len() == tools.len());
    out
}

/// How many of the tools of a group a definition has.
pub open spec fn selected(names: Seq<Seq<char>>, tools: Seq<Seq<char>>) -> nat
    decreases names.len(),
{
    if names.len() == 0 {
        0
    } else {
        selected(names.drop_last(), tools) + if tools.contains(names.last()) {
            1nat
        } else {
            0nat
        }
    }
}

/// How many of these tools a definition has.
pub fn selected_count(names: &Vec<String>, tools: &Vec<String>) -> (r: usize)
    ensures
        r == selected(text::views(names@), text::views(tools@)),
        r <= names.len(),
{
    let ghost all = text::views(names@);
    let mut n: usize = 0;
    let mut i: usize = 0;
    assert(all.take(0) =~= Seq::<Seq<char>>::empty());
    while i < names.len()
        invariant
            i <= names.len(),
            n <= i,
            all == text::views(names@),
            n == selected(all.take(i as int), text::views(tools@)),
        decreases names.len() - i,
    {
        assert(all.take(i + 1).drop_last() =~= all.take(i as int));
        assert(all.take(i + 1).last() == names[i as int]@);
        if text::list_contains(tools, names[i].as_str()) {
            n += 1;
        }
        i += 1;
    }
    assert(all.take(i as int) =~= all);
    n
}

/// Whether a definition has all of these tools.
pub fn all_selected(names: &Vec<String>, tools: &Vec<String>) -> (r: bool)
    ensures
        r == forall|i: int|
            0 <= i < names.len() ==> text::views(tools@).contains((#[trigger] names@[i])@),
{
    let mut i: usize = 0;
    while i < names.len()
        invariant
            i <= names.len(),
            forall|j: int|
                0 <= j < i ==> text::views(tools@).contains((#[trigger] names@[j])@),
        decreases names.len() - i,
    {
        if !text::list_contains(tools, names[i].as_str()) {
            assert(!text::views(tools@).contains(names@[i as int]@));
            return false;
        }
        i += 1;
    }
    true
}

/// Whether a definition has some of these tools and not all.
pub fn is_indeterminate(names: &Vec<String>, tools: &Vec<String>) -> (r: bool)
    ensures
        r == (0 < selected(text::views(names@), text::views(tools@)) < names.len()),
{
    let n = selected_count(names, tools);
    n > 0 && n < names.len()
}

proof fn lemma_without(names: Seq<Seq<char>>, name: Seq<char>, x: Seq<char>)
    ensures
        without(names, name).contains(x) <==> names.contains(x) && x != name,
        !names.contains(name) ==> without(names, name) == names,
    decreases names.len(),
{
    if names.len() > 0 {
        let rest = names.drop_last();
        lemma_without(rest, name, x);
        let before = without(rest, name);
        let all = without(names, name);
        assert(names[names.len() - 1] == names.last());
        if names.contains(x) {
            let i = choose|i: int| 0 <= i < names.len() && names[i] == x;
            if i < rest.len() {
                assert(rest[i] == x);
            }
        }
        if rest.contains(x) {
            let i = choose|i: int| 0 <= i < rest.len() && rest[i] == x;
            assert(names[i] == x);
        }
        if rest.contains(name) {
            let i = choose|i: int| 0 <= i < rest.len() && rest[i] == name;
            assert(names[i] == name);
        }
        if names.last() != name {
            assert(all[before.len() as int] == names.last());
            if before.contains(x) {
                let i = choose|i: int| 0 <= i < before.len() && before[i] == x;
                assert(all[i] == x);
            }
            if all.contains(x) {
                let i = choose|i: int| 0 <= i < all.len() && all[i] == x;
                if i < before.len() {
                    assert(before[i] == x);
                }
            }
            if !names.contains(name) {
                assert(before.push(names.last()) =~= names);
            }
        }
    } else {
        assert(without(names, name) =~= names);
    }
}

/// A toggled tool is there exactly if it was not, every other tool is there exactly if it
/// was, and toggling a tool on and off again gives the list back.
pub proof fn law_toggle(names: Seq<Seq<char>>, name: Seq<char>, other: Seq<char>)
    ensures
        toggled(names, name).contains(name) == !names.contains(name),
        other != name ==> toggled(names, name).contains(other) == names.contains(other),
        !names.contains(name) ==> toggled(toggled(names, name), name) == names,
{
    lemma_without(names, name, name);
    lemma_without(names, name, other);
    let more = names.push(name);
    assert(more[names.len() as int] == name);
    if names.contains(other) {
        let i = choose|i: int| 0 <= i < names.len() && names[i] == other;
        assert(more[i] == other);
    }
    if more.contains(other) && other != name {
        let i = choose|i: int| 0 <= i < more.len() && more[i] == other;
        assert(names[i] == other);
    }
    assert(more.drop_last() =~= names);
}

/// Selecting some tools gives a definition all of them, deselecting takes all of them out,
/// and no other tool changes.
pub proof fn law_group_switch(
    names: Seq<Seq<char>>,
    some: Seq<Seq<char>>,
    select: bool,
    x: Seq<char>,
)
    ensures
        some.contains(x) ==> switched(names, some, select).contains(x) == select,
        !some.contains(x) ==> switched(names, some, select).contains(x) == names.contains(x),
    decreases some.len(),
{
    if some.len() > 0 {
        let rest = some.drop_last();
        law_group_switch(names, rest, select, x);
        let before = switched(names, rest, select);
        let last = some.last();
        lemma_without(before, last, x);
        assert(some[some.len() - 1] == last);
        if some.contains(x) {
            let i = choose|i: int| 0 <= i < some.len() && some[i] == x;
            if i < rest.len() {
                assert(rest[i] == x);
            }
        }
        if rest.contains(x) {
            let i = choose|i: int| 0 <= i < rest.len() && rest[i] == x;
            assert(some[i] == x);
        }
        let more = before.push(last);
        assert(more[before.len() as int] == last);
        if before.contains(x) {
            let i = choose|i: int| 0 <= i < before.len() && before[i] == x;
            assert(more[i] == x);
        }
        if more.contains(x) && x != last {
            let i = choose|i: int| 0 <= i < more.len() && more[i] == x;
            assert(before[i] == x);
        }
    }
}

/// A name that is taken out leaves the others in their order.
pub proof fn law_order_is_kept(a: Seq<Seq<char>>, name: Seq<char>, b: Seq<Seq<char>>)
    requires
        !a.contains(name) && !b.contains(name),
    ensures
        without(a + seq![name] + b, name) == a + b,
        without(a, name) == a,
    decreases b.len(),
{
    lemma_without(a, name, name);
    let all = a + seq![name] + b;
    if b.len() == 0 {
        assert(all.drop_last() =~= a);
        assert(all.last() == name);
        assert(a + b =~= a);
    } else {
        let c = b.drop_last();
        assert(all.last() == b[b.len() - 1]);
        assert(all.drop_last() =~= a + seq![name] + c);
        assert(!c.contains(name)) by {
            if c.contains(name) {
                let i = choose|i: int| 0 <= i < c.len() && c[i] == name;
                assert(b[i] == name);
            }
        }
        assert(b.last() != name) by {
            assert(b.contains(b[b.len() - 1]));
        }
        law_order_is_kept(a, name, c);
        assert((a + c).push(b.last()) =~= a + b);
    }
}

/// Selecting tools puts those that are new behind those that there were.
pub proof fn law_selected_tools_go_behind(names: Seq<Seq<char>>, some: Seq<Seq<char>>, i: int)
    ensures
        switched(names, some, true).len() >= names.len(),
        0 <= i < names.len() ==> switched(names, some, true)[i] == names[i],
        switched(names, Seq::empty(), true) == names,
        switched(names, Seq::empty(), false) == names,
    decreases some.len(),
{
    if some.len() > 0 {
        law_selected_tools_go_behind(names, some.drop_last(), i);
    }
}

/// The tools of a server are all the tools that come from it, in order, and no others.
pub proof fn law_tools_of_a_server(before: Seq<McpToolView>, t: McpToolView, server: Seq<char>)
    ensures
        server_tools(Seq::empty(), server).len() == 0,
        t.server_name == server ==> server_tools(before.push(t), server) == server_tools(
            before,
            server,
        ).push(t.name),
        t.server_name != server ==> server_tools(before.push(t), server) == server_tools(
            before,
            server,
        ),
        t.server_name.len() > 0 ==> group_of(t) == t.server_name,
        t.server_name.len() == 0 ==> group_of(t) == "mcp"@,
{
    assert(before.push(t).drop_last() =~= before);
}

/// Every tool that a definition has counts once.
pub proof fn law_selected_tools_are_counted(
    before: Seq<Seq<char>>,
    name: Seq<char>,
    tools: Seq<Seq<char>>,
)
    ensures
        selected(Seq::empty(), tools) == 0,
        tools.contains(name) ==> selected(before.push(name), tools) == selected(before, tools) + 1,
        !tools.contains(name) ==> selected(before.push(name), tools) == selected(before, tools),
{
    assert(before.push(name).drop_last() =~= before);
}

/// Every tool stands in the one group that goes by its server.
pub proof fn law_every_tool_is_in_its_group(gs: Seq<Group>, tools: Seq<McpToolView>, i: int)
    requires
        groups_ok(gs, tools),
        0 <= i < tools.len(),
    ensures
        exists|a: int, b: int|
            0 <= a < gs.len() && 0 <= b < gs[a].members.len() && gs[a].name@ == group_of(tools[i])
                && #[trigger] gs[a].members@[b] == i,
        forall|a: int, b: int|
            0 <= a < gs.len() && 0 <= b < gs[a].members.len() && #[trigger] gs[a].members@[b] == i
                ==> gs[a].name@ == group_of(tools[i]),
{
    let name = group_of(tools[i]);
    assert(has_group(gs, name));
    let a = choose|a: int| 0 <= a < gs.len() && (#[trigger] gs[a]).name@ == name;
    assert(group_ok(gs[a], tools));
    assert(in_group(tools, gs[a].name@, i));
    let b = choose|b: int| 0 <= b < gs[a].members.len() && #[trigger] gs[a].members@[b] == i;
    assert(gs[a].members@[b] == i);
    assert forall|x: int, y: int|
        0 <= x < gs.len() && 0 <= y < gs[x].members.len() && #[trigger] gs[x].members@[y]
            == i implies gs[x].name@ == name by {
        assert(group_ok(gs[x], tools));
        assert(in_group(tools, gs[x].name@, gs[x].members@[y] as int));
    }
}

} // verus!
