//! The rows of the timeline.

use crate::dashboard::api;
use crate::dashboard::api::{AgentDefView, AgentInfo, AgentInfoView, TeamWithAgents};
use crate::order;
use crate::text;
use vstd::prelude::*;

verus! {

/// A row of the timeline: its label, the interval of its definition in minutes, and its
/// agent.
pub struct Row {
    pub label: String,
    pub mins: u64,
    pub agent: AgentInfo,
}

/// What a [`Row`] says.
#[verifier::ext_equal]
pub struct RowView {
    pub label: Seq<char>,
    pub mins: u64,
    pub agent: AgentInfoView,
}

impl View for Row {
    type V = RowView;

    open spec fn view(&self) -> RowView {
        RowView { label: self.label@, mins: self.mins, agent: self.agent@ }
    }
}

pub open spec fn row_views(v: Seq<Row>) -> Seq<RowView> {
    v.map_values(|r: Row| r@)
}

/// A definition that is scheduled.
pub open spec fn timed(d: AgentDefView) -> bool {
    d.schedule_mins matches Some(n) && n > 0
}

/// The interval of the scheduled definition with a name, the last of them counting; zero
/// where there is none.
pub open spec fn mins_of(defs: Seq<AgentDefView>, name: Seq<char>) -> u64
    decreases defs.len(),
{
    if defs.len() == 0 {
        0
    } else if timed(defs.last()) && defs.last().name == name {
        defs.last().schedule_mins->0
    } else {
        mins_of(defs.drop_last(), name)
    }
}

/// The first six bytes of a longer id.
pub open spec fn short_id(id: Seq<char>) -> Seq<char> {
    if text::size(id) > 6 {
        text::byte_prefix(id, 6)
    } else {
        id
    }
}

/// An id that can be cut after six bytes.
pub open spec fn can_shorten(a: AgentInfoView) -> bool {
    text::size(a.id) > 6 ==> text::boundary(a.id, 6)
}

/// The row of an agent that has a definition.
pub open spec fn row_of(a: AgentInfoView, defs: Seq<AgentDefView>) -> RowView {
    let name = a.def_name->0;
    RowView {
        label: name + " ("@ + short_id(a.id) + ")"@,
        mins: mins_of(defs, name),
        agent: a,
    }
}

/// The rows in the order of the agents.
pub open spec fn unsorted_rows(agents: Seq<AgentInfoView>, defs: Seq<AgentDefView>) -> Seq<RowView>
    decreases agents.len(),
{
    if agents.len() == 0 {
        Seq::empty()
    } else {
        let before = unsorted_rows(agents.drop_last(), defs);
        if agents.last().def_name is Some {
            before.push(row_of(agents.last(), defs))
        } else {
            before
        }
    }
}

/// What a label says before its bracket.
pub open spec fn label_name(label: Seq<char>) -> Seq<char> {
    match text::first_of(label, " ("@) {
        Some(i) => label.take(i),
        None => label,
    }
}

/// The labels of rows.
pub open spec fn labels(rows: Seq<RowView>) -> Seq<Seq<char>> {
    rows.map_values(|r: RowView| r.label)
}

/// What the labels of rows say before their brackets.
pub open spec fn label_names(rows: Seq<RowView>) -> Seq<Seq<char>> {
    rows.map_values(|r: RowView| label_name(r.label))
}

/// `rows` are the rows of `unsorted`, by name and then by label.
pub open spec fn sorted_rows(rows: Seq<RowView>, unsorted: Seq<RowView>) -> bool {
    exists|p: Seq<int>|
        #![trigger order::sorted_by(p, label_names(unsorted), labels(unsorted))]
        order::sorted_by(p, label_names(unsorted), labels(unsorted)) && rows.len() == p.len() && (
        forall|i: int| 0 <= i < p.len() ==> #[trigger] rows[i] == unsorted[p[i]])
}

fn find_mins(defs: &Vec<api::AgentDef>, name: &str) -> (r: u64)
    ensures
        r == mins_of(api::def_views(defs@), name@),
{
    let ghost all = api::def_views(defs@);
    let mut i: usize = defs.len();
    assert(all.take(i as int) =~= all);
    while i > 0
        invariant
            i <= defs.len(),
            all == api::def_views(defs@),
            mins_of(all, name@) == mins_of(all.take(i as int), name@),
        decreases i,
    {
        assert(all.take(i as int).drop_last() =~= all.take(i - 1));
        assert(all.take(i as int).last() == defs[i - 1]@);
        let d = &defs[i - 1];
        if let Some(n) = d.schedule_mins {
            if n > 0 && text::same(d.name.as_str(), name) {
                return n;
            }
        }
        i -= 1;
    }
    0
}

fn make_row(a: &AgentInfo, name: &str, defs: &Vec<api::AgentDef>) -> (r: Row)
    requires
        can_shorten(a@),
        a@.def_name == Some(name@),
    ensures
        r@ == row_of(a@, api::def_views(defs@)),
{
    let mut label = name.to_string();
    label.append(" (");
    if text::byte_size(a.id.as_str()) > 6 {
        label.append(text::take_bytes(a.id.as_str(), 6));
    } else {
        label.append(a.id.as_str());
    }
    label.append(")");
    Row { label, mins: find_mins(defs, name), agent: a.clone() }
}

fn copy_row(r: &Row) -> (c: Row)
    ensures
        c@ == r@,
{
    Row { label: r.label.clone(), mins: r.mins, agent: r.agent.clone() }
}

fn name_of_label(label: &str) -> (r: String)
    ensures
        r@ == label_name(label@),
{
    match text::find(label, " (") {
        Some(i) => text::take(label, i).to_string(),
        None => label.to_string(),
    }
}

/// The rows of the timeline: one for each agent with a definition, by name and then by
/// label. An id longer than six bytes must have a character starting right there.
pub fn rows(agents: &Vec<AgentInfo>, teams: &Vec<TeamWithAgents>) -> (r: Vec<Row>)
    requires
        forall|i: int| 0 <= i < agents.len() ==> can_shorten((#[trigger] agents@[i])@),
    ensures
        sorted_rows(
            row_views(r@),
            unsorted_rows(api::agent_views(agents@), api::defs_of(api::team_views(teams@))),
        ),
{
    let defs = api::all_defs(teams);
    let ghost ds = api::def_views(defs@);
    let ghost ags = api::agent_views(agents@);
    let mut groups: Vec<Row> = Vec::new();
    let mut i: usize = 0;
    assert(ags.take(0) =~= Seq::<AgentInfoView>::empty());
    assert(row_views(groups@) =~= Seq::<RowView>::empty());
    while i < agents.len()
        invariant
            i <= agents.len(),
            ags == api::agent_views(agents@),
            ds == api::def_views(defs@),
            row_views(groups@) == unsorted_rows(ags.take(i as int), ds),
            forall|i: int| 0 <= i < agents.len() ==> can_shorten((#[trigger] agents@[i])@),
        decreases agents.len() - i,
    {
        let ghost before = row_views(groups@);
        assert(ags.take(i + 1).drop_last() =~= ags.take(i as int));
        assert(ags.take(i + 1).last() == agents[i as int]@);
        let a = &agents[i];
        assert(can_shorten(agents@[i as int]@));
        if let Some(name) = &a.def_name {
            let row = make_row(a, name.as_str(), &defs);
            let ghost v = row@;
            groups.push(row);
            assert(row_views(groups@) =~= before.push(v));
        }
        i += 1;
    }
    assert(ags.take(i as int) =~= ags);
    let ghost all = row_views(groups@);
    let mut names: Vec<String> = Vec::new();
    let mut marks: Vec<String> = Vec::new();
    let mut j: usize = 0;
    assert(text::views(names@) =~= label_names(all).take(0));
    assert(text::views(marks@) =~= labels(all).take(0));
    while j < groups.len()
        invariant
            j <= groups.len(),
            all == row_views(groups@),
            text::views(names@) == label_names(all).take(j as int),
            text::views(marks@) == labels(all).take(j as int),
        decreases groups.len() - j,
    {
        let ghost a = text::views(names@);
        let ghost b = text::views(marks@);
        let n = name_of_label(groups[j].label.as_str());
        let ghost nv = n@;
        names.push(n);
        marks.push(groups[j].label.clone());
        assert(text::views(names@) =~= a.push(nv));
        assert(text::views(marks@) =~= b.push(groups[j as int].label@));
        j += 1;
        assert(text::views(names@) =~= label_names(all).take(j as int));
        assert(text::views(marks@) =~= labels(all).take(j as int));
    }
    assert(text::views(names@) =~= label_names(all));
    assert(text::views(marks@) =~= labels(all));
    assert(names.len() == text::views(names@).len() && marks.len() == text::views(marks@).len());
    let perm = order::sort_rows(&names, &marks);
    let ghost p = order::indices(perm@);
    let mut out: Vec<Row> = Vec::new();
    let mut k: usize = 0;
    while k < perm.len()
        invariant
            k <= perm.len(),
            all == row_views(groups@),
            p == order::indices(perm@),
            order::sorted_by(p, label_names(all), labels(all)),
            out.len() == k,
            forall|x: int| 0 <= x < k ==> #[trigger] row_views(out@)[x] == all[p[x]],
        decreases perm.len() - k,
    {
        let ghost before = row_views(out@);
        assert(p[k as int] == perm[k as int]);
        out.push(copy_row(&groups[perm[k]]));
        assert forall|x: int| 0 <= x < k + 1 implies #[trigger] row_views(out@)[x] == all[p[x]] by {
            if x < k {
                assert(row_views(out@)[x] == before[x]);
            }
        }
        k += 1;
    }
    proof {
        assert(order::sorted_by(p, label_names(all), labels(all)));
        assert(row_views(out@).len() == p.len());
    }
    out
}

/// A label as it is shown: the first eighteen bytes of a longer one.
pub open spec fn shown_label(label: Seq<char>) -> Seq<char> {
    if text::size(label) > 18 {
        text::byte_prefix(label, 18) + "…"@
    } else {
        label
    }
}

/// A label as it is shown. One that is longer than eighteen bytes must have a character
/// starting right there.
pub fn row_label(label: &str) -> (r: String)
    requires
        text::size(label@) > 18 ==> text::boundary(label@, 18),
    ensures
        r@ == shown_label(label@),
{
    if text::byte_size(label) > 18 {
        text::cat(text::take_bytes(label, 18), "…")
    } else {
        label.to_string()
    }
}

/// A scheduled definition has this name.
pub open spec fn name_is_timed(defs: Seq<AgentDefView>, name: Seq<char>) -> bool {
    exists|i: int| 0 <= i < defs.len() && timed(#[trigger] defs[i]) && defs[i].name == name
}

/// An agent that no scheduled definition stands behind.
pub open spec fn on_demand(a: AgentInfoView, defs: Seq<AgentDefView>) -> bool {
    match a.def_name {
        Some(n) => !name_is_timed(defs, n),
        None => true,
    }
}

/// The number of agents that no scheduled definition stands behind.
pub open spec fn on_demand_count(agents: Seq<AgentInfoView>, defs: Seq<AgentDefView>) -> nat
    decreases agents.len(),
{
    if agents.len() == 0 {
        0
    } else {
        on_demand_count(agents.drop_last(), defs) + if on_demand(agents.last(), defs) {
            1nat
        } else {
            0nat
        }
    }
}

fn has_timed_name(defs: &Vec<api::AgentDef>, name: &str) -> (r: bool)
    ensures
        r == name_is_timed(api::def_views(defs@), name@),
{
    let ghost all = api::def_views(defs@);
    let mut i: usize = 0;
    while i < defs.len()
        invariant
            i <= defs.len(),
            all == api::def_views(defs@),
            forall|j: int| 0 <= j < i ==> !(timed(#[trigger] all[j]) && all[j].name == name@),
        decreases defs.len() - i,
    {
        let d = &defs[i];
        assert(all[i as int] == d@);
        if let Some(n) = d.schedule_mins {
            if n > 0 && text::same(d.name.as_str(), name) {
                assert(timed(all[i as int]) && all[i as int].name == name@);
                return true;
            }
        }
        i += 1;
    }
    false
}

/// The number of agents that no scheduled definition stands behind.
pub fn nonscheduled(agents: &Vec<AgentInfo>, teams: &Vec<TeamWithAgents>) -> (r: usize)
    ensures
        r == on_demand_count(api::agent_views(agents@), api::defs_of(api::team_views(teams@))),
{
    let defs = api::all_defs(teams);
    let ghost ds = api::def_views(defs@);
    let ghost ags = api::agent_views(agents@);
    let mut n: usize = 0;
    let mut i: usize = 0;
    assert(ags.take(0) =~= Seq::<AgentInfoView>::empty());
    while i < agents.len()
        invariant
            i <= agents.len(),
            n <= i,
            ags == api::agent_views(agents@),
            ds == api::def_views(defs@),
            n == on_demand_count(ags.take(i as int), ds),
        decreases agents.len() - i,
    {
        assert(ags.take(i + 1).drop_last() =~= ags.take(i as int));
        assert(ags.take(i + 1).last() == agents[i as int]@);
        let free = match &agents[i].def_name {
            Some(name) => !has_timed_name(&defs, name.as_str()),
            None => true,
        };
        if free {
            n += 1;
        }
        i += 1;
    }
    assert(ags.take(i as int) =~= ags);
    n
}

/// What stands below the timeline.
pub fn footer(count: usize) -> (r: String)
    ensures
        r@ == if count > 0 {
            text::decimal(count as nat) + " on-demand agent(s) running"@
        } else {
            Seq::empty()
        },
{
    if count > 0 {
        text::cat(text::to_decimal(count as u64).as_str(), " on-demand agent(s) running")
    } else {
        String::new()
    }
}

/// Where each position is listed once, what stands at the positions is all that there is.
proof fn lemma_permuted(p: Seq<int>, rows: Seq<RowView>, all: Seq<RowView>)
    requires
        p.len() == all.len(),
        rows.len() == all.len(),
        p.no_duplicates(),
        forall|i: int| 0 <= i < p.len() ==> 0 <= #[trigger] p[i] < all.len(),
        forall|i: int| 0 <= i < p.len() ==> #[trigger] rows[i] == all[p[i]],
    ensures
        rows.to_multiset() == all.to_multiset(),
    decreases p.len(),
{
    broadcast use vstd::seq_lib::group_to_multiset_ensures;

    if p.len() == 0 {
        assert(rows =~= all);
    } else {
        let k = p.last();
        let fewer = all.remove(k);
        let before = rows.drop_last();
        let q = Seq::new(
            (p.len() - 1) as nat,
            |i: int|
                if p[i] < k {
                    p[i]
                } else {
                    p[i] - 1
                },
        );
        assert forall|i: int| 0 <= i < q.len() implies 0 <= #[trigger] q[i] < fewer.len()
            && before[i] == fewer[q[i]] by {
            assert(p[i] != p[p.len() - 1]);
            assert(before[i] == rows[i]);
        }
        assert forall|i: int, j: int| 0 <= i < q.len() && 0 <= j < q.len() && i != j implies q[i]
            != q[j] by {
            assert(p[i] != p[j]);
            assert(p[i] != p[p.len() - 1] && p[j] != p[p.len() - 1]);
        }
        lemma_permuted(q, before, fewer);
        assert(rows =~= before.push(all[k]));
        assert(all.to_multiset().count(all[k]) > 0) by {
            assert(all.contains(all[k]));
        }
        assert(fewer.to_multiset() =~= all.to_multiset().remove(all[k]));
        assert(rows.to_multiset() =~= fewer.to_multiset().insert(all[k]));
        assert(rows.to_multiset() =~= all.to_multiset());
    }
}

/// Sorting loses no row and makes none up.
pub proof fn law_rows_are_kept(rows: Seq<RowView>, unsorted: Seq<RowView>)
    requires
        sorted_rows(rows, unsorted),
    ensures
        rows.to_multiset() == unsorted.to_multiset(),
{
    let p = choose|p: Seq<int>|
        #![trigger order::sorted_by(p, label_names(unsorted), labels(unsorted))]
        order::sorted_by(p, label_names(unsorted), labels(unsorted)) && rows.len() == p.len() && (
        forall|i: int| 0 <= i < p.len() ==> #[trigger] rows[i] == unsorted[p[i]]);
    assert(label_names(unsorted).len() == unsorted.len());
    lemma_permuted(p, rows, unsorted);
}

/// Every agent that has a definition gets a row of its own, in order, and no other agent does.
pub proof fn law_agents_get_rows(
    before: Seq<AgentInfoView>,
    a: AgentInfoView,
    defs: Seq<AgentDefView>,
)
    ensures
        unsorted_rows(Seq::empty(), defs).len() == 0,
        a.def_name is None ==> unsorted_rows(before.push(a), defs) == unsorted_rows(before, defs),
        a.def_name matches Some(name) ==> ({
            let rows = unsorted_rows(before.push(a), defs);
            &&& rows.len() == unsorted_rows(before, defs).len() + 1
            &&& rows.drop_last() == unsorted_rows(before, defs)
            &&& rows.last().agent == a
            &&& text::begins_with(rows.last().label, name + " ("@)
            &&& text::size(a.id) <= 6 ==> rows.last().label == name + " ("@ + a.id + ")"@
            &&& rows.last().mins == mins_of(defs, name)
        }),
{
    assert(before.push(a).drop_last() =~= before);
    if let Some(name) = a.def_name {
        let r = row_of(a, defs);
        assert(unsorted_rows(before, defs).push(r).drop_last() =~= unsorted_rows(before, defs));
        let p = name + " ("@;
        assert(r.label.subrange(0, p.len() as int) =~= p);
    }
}

/// The interval of a name is that of the last scheduled definition that has it, and zero where
/// none has.
pub proof fn law_interval_of_a_name(before: Seq<AgentDefView>, d: AgentDefView, name: Seq<char>)
    ensures
        mins_of(Seq::empty(), name) == 0,
        d.name == name ==> (d.schedule_mins matches Some(n) ==> (n > 0 ==> mins_of(
            before.push(d),
            name,
        ) == n)),
        d.name != name ==> mins_of(before.push(d), name) == mins_of(before, name),
        d.schedule_mins is None || d.schedule_mins == Some(0u64) ==> mins_of(before.push(d), name)
            == mins_of(before, name),
{
    assert(before.push(d).drop_last() =~= before);
}

/// A row goes by the name of its definition.
pub proof fn law_rows_go_by_name(name: Seq<char>, rest: Seq<char>)
    requires
        crate::text_facts::first_after(name, " ("@, rest),
    ensures
        label_name(name + " ("@ + rest) == name,
{
    reveal_strlit(" (");
    let s = name + " ("@ + rest;
    let n = name.len() as int;
    assert(s.subrange(n, n + 2) =~= " ("@);
    crate::text_facts::lemma_find_is(s, " ("@, 0, n);
    assert(s.take(n) =~= name);
}

/// Every agent without a scheduled definition counts once, and no other does.
pub proof fn law_agents_on_demand_are_counted(
    before: Seq<AgentInfoView>,
    a: AgentInfoView,
    defs: Seq<AgentDefView>,
    i: int,
)
    ensures
        on_demand_count(Seq::empty(), defs) == 0,
        a.def_name is None ==> on_demand_count(before.push(a), defs) == on_demand_count(
            before,
            defs,
        ) + 1,
        0 <= i < defs.len() && a.def_name == Some(defs[i].name) && (defs[i].schedule_mins matches
            Some(n) && n > 0) ==> on_demand_count(before.push(a), defs) == on_demand_count(
            before,
            defs,
        ),
        a.def_name is Some && (forall|j: int|
            0 <= j < defs.len() ==> (#[trigger] defs[j]).name != a.def_name->0)
            ==> on_demand_count(before.push(a), defs) == on_demand_count(before, defs) + 1,
{
    assert(before.push(a).drop_last() =~= before);
    if 0 <= i < defs.len() && a.def_name == Some(defs[i].name) && (defs[i].schedule_mins matches
        Some(n) && n > 0) {
        assert(timed(defs[i]));
        assert(name_is_timed(defs, defs[i].name));
    }
}

/// A short label is shown whole.
pub proof fn law_short_labels(label: Seq<char>, id: Seq<char>)
    ensures
        text::size(label) <= 18 ==> shown_label(label) == label,
        text::size(label) > 18 ==> text::finishes_with(shown_label(label), "…"@),
        text::size(id) <= 6 ==> short_id(id) == id,
{
    let s = shown_label(label);
    let p = text::byte_prefix(label, 18);
    if text::size(label) > 18 {
        assert(s.subrange(s.len() - "…"@.len(), s.len() as int) =~= "…"@);
    }
}

/// Rows are shown by the names of their definitions, those of one name by their labels.
pub proof fn law_rows_are_in_order(rows: Seq<RowView>, unsorted: Seq<RowView>, a: int, b: int)
    requires
        sorted_rows(rows, unsorted),
        0 <= a < b < rows.len(),
    ensures
        !order::before(label_name(rows[b].label), label_name(rows[a].label)),
        label_name(rows[a].label) == label_name(rows[b].label) ==> !order::before(
            rows[b].label,
            rows[a].label,
        ),
{
    let p = choose|p: Seq<int>|
        #![trigger order::sorted_by(p, label_names(unsorted), labels(unsorted))]
        order::sorted_by(p, label_names(unsorted), labels(unsorted)) && rows.len() == p.len() && (
        forall|i: int| 0 <= i < p.len() ==> #[trigger] rows[i] == unsorted[p[i]]);
    order::law_sorted(p, label_names(unsorted), labels(unsorted), a, b);
    assert(rows[a] == unsorted[p[a]] && rows[b] == unsorted[p[b]]);
}

} // verus!
