//! A written agent definition reads back as itself.

use crate::dashboard::api::AgentDefView;
use crate::dashboard::definition;
use crate::dashboard::definition::DefReaderView;
use crate::text;
use crate::text_facts;
use vstd::prelude::*;

verus! {

/// A value that a front matter field can carry: one line without a comment sign
/// and without white space at its ends.
pub open spec fn plain(v: Seq<char>) -> bool {
    text_facts::tight(v) && text_facts::free_of(v, '\n') && text_facts::free_of(v, '#')
}

/// A value that an optional front matter field can carry.
pub open spec fn plain_option(v: Option<Seq<char>>) -> bool {
    v matches Some(t) ==> t.len() > 0 && plain(t)
}

/// A tool name that a list item can carry.
pub open spec fn item_like(t: Seq<char>) -> bool {
    t.len() > 0 && text_facts::tight(t) && text_facts::free_of(t, '\n')
}

/// A task that a block can carry: its lines have no white space at their ends,
/// it neither starts nor ends with white space, and only line feeds part its lines.
pub open spec fn block_like(t: Seq<char>) -> bool {
    &&& text_facts::tight(t)
    &&& text::joined(text::lines_of(t), "\n"@) == t
    &&& forall|i: int|
        0 <= i < text::lines_of(t).len() ==> text_facts::tight(#[trigger] text::lines_of(t)[i])
            && text_facts::free_of(text::lines_of(t)[i], '\n')
}

/// A definition whose document says all of it.
pub open spec fn writable(d: AgentDefView) -> bool {
    &&& d.name.len() > 0 || d.id.len() > 0
    &&& plain(d.name)
    &&& plain(d.policy)
    &&& plain_option(d.model)
    &&& plain_option(d.task_hint)
    &&& forall|i: int| 0 <= i < d.tools.len() ==> item_like(#[trigger] d.tools[i])
    &&& d.task matches Some(t) ==> block_like(t) && (t.len() > 0 || d.task_hint is Some)
    &&& text_facts::tight(d.instructions)
}

/// A field name: letters and underscores only, so far as reading is concerned.
spec fn key_like(k: Seq<char>) -> bool {
    &&& k.len() > 0
    &&& text_facts::tight(k)
    &&& text_facts::free_of(k, ':')
    &&& k[0] != '#'
    &&& k[0] != '-'
    &&& k[0] != ' '
}

proof fn lemma_read_concat(st: DefReaderView, a: Seq<Seq<char>>, b: Seq<Seq<char>>)
    ensures
        definition::read_lines(st, a + b) == definition::read_lines(
            definition::read_lines(st, a),
            b,
        ),
    decreases b.len(),
{
    if b.len() == 0 {
        assert(a + b =~= a);
    } else {
        assert((a + b).drop_last() =~= a + b.drop_last());
        assert((a + b).last() == b.last());
        lemma_read_concat(st, a, b.drop_last());
    }
}

proof fn lemma_read_one(st: DefReaderView, x: Seq<char>)
    ensures
        definition::read_lines(st, seq![x]) == definition::read_line(st, x),
{
    assert(seq![x].drop_last() =~= Seq::<Seq<char>>::empty());
    assert(definition::read_lines(st, seq![x].drop_last()) == st);
}

/// How a line that trims to a key, a colon and a value is read.
proof fn lemma_read_pair(
    st: DefReaderView,
    row: Seq<char>,
    k: Seq<char>,
    val: Seq<char>,
    v: Seq<char>,
)
    requires
        key_like(k),
        text::trimmed(row) == k + seq![':'] + val,
        row.len() > 0 && row[0] == k[0],
        definition::field_value(val) == v,
    ensures
        definition::read_line(st, row) == definition::set_field(
            definition::close_tools(definition::close_task(st)),
            k,
            v,
        ),
{
    reveal_strlit("  ");
    reveal_strlit("- ");
    let t = text::trimmed(row);
    if text::begins_with(row, "  "@) {
        assert(row.subrange(0, 2)[0] == row[0]);
    }
    if text::begins_with(t, "- "@) {
        assert(t.subrange(0, 2)[0] == t[0]);
    }
    let n = k.len() as int;
    assert(t[n] == ':');
    assert forall|j: int| 0 <= j < n implies t[j] != ':' by {
        assert(t[j] == k[j]);
    }
    text::lemma_first_char_is(t, ':', n);
    assert(t.take(n) =~= k);
    assert(t.skip(n + 1) =~= val);
    text_facts::lemma_tight(k);
    assert(t[0] == k[0]);
}

/// A row made of a key, a colon, a space and a plain value is read as that field.
proof fn lemma_read_field(st: DefReaderView, prefix: Seq<char>, k: Seq<char>, v: Seq<char>)
    requires
        key_like(k),
        plain(v),
        prefix == k + seq![':', ' '],
    ensures
        definition::read_line(st, prefix + v) == definition::set_field(
            definition::close_tools(definition::close_task(st)),
            k,
            v,
        ),
{
    let row = prefix + v;
    let empty = Seq::<char>::empty();
    assert(text::blank(empty));
    if v.len() > 0 {
        let val = seq![' '] + v;
        assert(row =~= empty + (k + seq![':'] + val) + empty);
        assert((k + seq![':'] + val).last() == v.last());
        assert((k + seq![':'] + val)[0] == k[0]);
        text_facts::lemma_trim_around(empty, k + seq![':'] + val, empty);
        assert(text_facts::free_of(val, '#')) by {
            assert forall|i: int| 0 <= i < val.len() implies #[trigger] val[i] != '#' by {
                if i > 0 {
                    assert(val[i] == v[i - 1]);
                }
            }
        }
        text::lemma_first_char_none(val, '#');
        assert(val =~= seq![' '] + v + empty);
        assert(text::blank(seq![' ']));
        text_facts::lemma_trim_around(seq![' '], v, empty);
        lemma_read_pair(st, row, k, val, v);
    } else {
        let core = k + seq![':'];
        assert(row =~= empty + core + seq![' ']);
        assert(core.last() == ':');
        assert(core[0] == k[0]);
        assert(text::blank(seq![' ']));
        text_facts::lemma_trim_around(empty, core, seq![' ']);
        assert(core =~= k + seq![':'] + empty);
        assert(v =~= empty);
        assert(text::first_char(empty, '#') is None);
        text_facts::lemma_tight(empty);
        lemma_read_pair(st, row, k, empty, v);
    }
}

/// The rows of a tool list fill the open list.
proof fn lemma_read_items(st: DefReaderView, tools: Seq<Seq<char>>)
    requires
        st.in_tools,
        !st.in_task,
        forall|i: int| 0 <= i < tools.len() ==> item_like(#[trigger] tools[i]),
    ensures
        definition::read_lines(st, definition::prefixed("  - "@, tools)) == (DefReaderView {
            tools: st.tools + tools,
            ..st
        }),
    decreases tools.len(),
{
    reveal_strlit("  - ");
    reveal_strlit("- ");
    let rows = definition::prefixed("  - "@, tools);
    if tools.len() == 0 {
        assert(st.tools + tools =~= st.tools);
    } else {
        let t = tools.last();
        assert(item_like(tools[tools.len() - 1]));
        assert(rows.drop_last() =~= definition::prefixed("  - "@, tools.drop_last()));
        assert forall|i: int| 0 <= i < tools.drop_last().len() implies item_like(
            #[trigger] tools.drop_last()[i],
        ) by {
            assert(tools.drop_last()[i] == tools[i]);
        }
        lemma_read_items(st, tools.drop_last());
        let row = "  - "@ + t;
        assert(rows.last() == row);
        let core = "- "@ + t;
        let empty = Seq::<char>::empty();
        assert(row =~= seq![' ', ' '] + core + empty);
        assert(text::blank(seq![' ', ' ']));
        assert(text::blank(empty));
        assert(core.last() == t.last());
        text_facts::lemma_trim_around(seq![' ', ' '], core, empty);
        assert(core.subrange(0, 2) =~= "- "@);
        assert(core.skip(2) =~= t);
        text_facts::lemma_tight(t);
        assert((st.tools + tools.drop_last()).push(t) =~= st.tools + tools);
    }
}

/// The rows of a task block fill the open block with their join.
proof fn lemma_read_block(st: DefReaderView, ls: Seq<Seq<char>>)
    requires
        st.in_task,
        st.task_body.len() == 0,
        ls.len() > 0 ==> ls[0].len() > 0,
        forall|i: int| 0 <= i < ls.len() ==> text_facts::tight(#[trigger] ls[i]),
    ensures
        definition::read_lines(st, definition::prefixed("  "@, ls)) == (DefReaderView {
            task_body: text::joined(ls, "\n"@),
            ..st
        }),
        ls.len() > 0 ==> text::joined(ls, "\n"@).len() > 0,
    decreases ls.len(),
{
    reveal_strlit("  ");
    reveal_strlit("\n");
    let rows = definition::prefixed("  "@, ls);
    if ls.len() == 0 {
        assert(st.task_body =~= Seq::<char>::empty());
    } else {
        let l = ls.last();
        assert(text_facts::tight(ls[ls.len() - 1]));
        let before = ls.drop_last();
        assert(rows.drop_last() =~= definition::prefixed("  "@, before));
        assert forall|i: int| 0 <= i < before.len() implies text_facts::tight(
            #[trigger] before[i],
        ) by {
            assert(before[i] == ls[i]);
        }
        lemma_read_block(st, before);
        let row = "  "@ + l;
        assert(rows.last() == row);
        let empty = Seq::<char>::empty();
        assert(row.subrange(0, 2) =~= "  "@);
        assert(row =~= "  "@ + l + empty);
        assert(text::blank("  "@));
        assert(text::blank(empty));
        text_facts::lemma_trim_around("  "@, l, empty);
        text_facts::lemma_tight(l);
        if ls.len() == 1 {
            assert(definition::task_line(empty, row) =~= l);
            assert(text::joined(before, "\n"@) =~= empty);
        } else {
            let body = text::joined(before, "\n"@);
            assert(body.push('\n') + l =~= text::joined(ls, "\n"@));
        }
    }
}

/// A line of written front matter: not empty, not opening with a dash.
spec fn row_like(r: Seq<char>) -> bool {
    r.len() > 0 && r[0] != '-' && text_facts::line_like(r)
}

spec fn rows_like(rows: Seq<Seq<char>>) -> bool {
    forall|i: int| 0 <= i < rows.len() ==> row_like(#[trigger] rows[i])
}

proof fn lemma_rows_concat(a: Seq<Seq<char>>, b: Seq<Seq<char>>)
    requires
        rows_like(a),
        rows_like(b),
    ensures
        rows_like(a + b),
{
    assert forall|i: int| 0 <= i < (a + b).len() implies row_like(#[trigger] (a + b)[i]) by {
        if i < a.len() {
            assert((a + b)[i] == a[i]);
        } else {
            assert((a + b)[i] == b[i - a.len()]);
        }
    }
}

/// A prefix followed by a value that is a line makes a line.
proof fn lemma_row(prefix: Seq<char>, v: Seq<char>)
    requires
        prefix.len() > 0,
        prefix[0] != '-',
        text_facts::line_like(prefix),
        text_facts::tight(v),
        text_facts::free_of(v, '\n'),
    ensures
        row_like(prefix + v),
{
    let r = prefix + v;
    assert forall|i: int| 0 <= i < r.len() implies #[trigger] r[i] != '\n' by {
        if i < prefix.len() {
            assert(r[i] == prefix[i]);
        } else {
            assert(r[i] == v[i - prefix.len()]);
        }
    }
    if v.len() > 0 {
        assert(r.last() == v.last());
    } else {
        assert(r =~= prefix);
    }
}

proof fn lemma_prefixed_rows(prefix: Seq<char>, items: Seq<Seq<char>>)
    requires
        prefix.len() > 0,
        prefix[0] != '-',
        text_facts::line_like(prefix),
        forall|i: int|
            0 <= i < items.len() ==> text_facts::tight(#[trigger] items[i]) && text_facts::free_of(
                items[i],
                '\n',
            ),
    ensures
        rows_like(definition::prefixed(prefix, items)),
{
    let rows = definition::prefixed(prefix, items);
    assert forall|i: int| 0 <= i < rows.len() implies row_like(#[trigger] rows[i]) by {
        assert(text_facts::tight(items[i]));
        lemma_row(prefix, items[i]);
    }
}

proof fn lemma_text_row(prefix: Seq<char>, v: Option<Seq<char>>)
    requires
        prefix.len() > 0,
        prefix[0] != '-',
        text_facts::line_like(prefix),
        plain_option(v),
    ensures
        rows_like(definition::text_row(prefix, v)),
{
    if let Some(t) = v {
        lemma_row(prefix, t);
    }
}

proof fn lemma_decimal_plain(n: nat)
    ensures
        plain(text::decimal(n)),
{
    text_facts::lemma_decimal_digits(n);
    let d = text::decimal(n);
    assert(text::is_digit(d[0]));
    assert(text::is_digit(d[d.len() - 1]));
    assert forall|i: int| 0 <= i < d.len() implies #[trigger] d[i] != '\n' && d[i] != '#' by {
        assert(text::is_digit(d[i]));
    }
}

proof fn lemma_number_row(prefix: Seq<char>, v: Option<nat>)
    requires
        prefix.len() > 0,
        prefix[0] != '-',
        text_facts::line_like(prefix),
    ensures
        rows_like(definition::number_row(prefix, v)),
{
    if let Some(n) = v {
        lemma_decimal_plain(n);
        lemma_row(prefix, text::decimal(n));
    }
}

proof fn lemma_prefixes()
    ensures
        text_facts::line_like("name: "@),
        text_facts::line_like("model: "@),
        text_facts::line_like("tools:"@),
        text_facts::line_like("  - "@),
        text_facts::line_like("policy: "@),
        text_facts::line_like("memory_window: "@),
        text_facts::line_like("max_turns: "@),
        text_facts::line_like("schedule_mins: "@),
        text_facts::line_like("task: |"@),
        text_facts::line_like("  "@),
        text_facts::line_like("task_hint: "@),
{
    reveal_strlit("name: ");
    reveal_strlit("model: ");
    reveal_strlit("tools:");
    reveal_strlit("  - ");
    reveal_strlit("policy: ");
    reveal_strlit("memory_window: ");
    reveal_strlit("max_turns: ");
    reveal_strlit("schedule_mins: ");
    reveal_strlit("task: |");
    reveal_strlit("  ");
    reveal_strlit("task_hint: ");
}

proof fn lemma_front_rows(d: AgentDefView)
    requires
        writable(d),
    ensures
        rows_like(definition::front_rows(d)),
        definition::front_rows(d).len() > 0,
{
    lemma_prefixes();
    reveal_strlit("name: ");
    reveal_strlit("model: ");
    reveal_strlit("tools:");
    reveal_strlit("  - ");
    reveal_strlit("policy: ");
    reveal_strlit("memory_window: ");
    reveal_strlit("max_turns: ");
    reveal_strlit("schedule_mins: ");
    reveal_strlit("task: |");
    reveal_strlit("  ");
    reveal_strlit("task_hint: ");
    let name = seq!["name: "@ + d.name];
    lemma_row("name: "@, d.name);
    let model = definition::text_row("model: "@, d.model);
    lemma_text_row("model: "@, d.model);
    lemma_rows_concat(name, model);
    let tools = definition::tool_rows(d.tools);
    if d.tools.len() > 0 {
        assert forall|i: int| 0 <= i < d.tools.len() implies text_facts::tight(#[trigger] d.tools[i])
            && text_facts::free_of(d.tools[i], '\n') by {
            assert(item_like(d.tools[i]));
        }
        lemma_prefixed_rows("  - "@, d.tools);
        lemma_rows_concat(seq!["tools:"@], definition::prefixed("  - "@, d.tools));
    }
    lemma_rows_concat(name + model, tools);
    let policy = seq!["policy: "@ + d.policy];
    lemma_row("policy: "@, d.policy);
    lemma_rows_concat(name + model + tools, policy);
    let memory = definition::number_row("memory_window: "@, definition::size_of(d.memory_window));
    lemma_number_row("memory_window: "@, definition::size_of(d.memory_window));
    lemma_rows_concat(name + model + tools + policy, memory);
    let turns = definition::number_row("max_turns: "@, definition::size_of(d.max_turns));
    lemma_number_row("max_turns: "@, definition::size_of(d.max_turns));
    lemma_rows_concat(name + model + tools + policy + memory, turns);
    let mins = definition::number_row("schedule_mins: "@, definition::minutes_of(d.schedule_mins));
    lemma_number_row("schedule_mins: "@, definition::minutes_of(d.schedule_mins));
    lemma_rows_concat(name + model + tools + policy + memory + turns, mins);
    let task = definition::task_rows(d.task);
    if let Some(t) = d.task {
        lemma_prefixed_rows("  "@, text::lines_of(t));
        lemma_rows_concat(seq!["task: |"@], definition::prefixed("  "@, text::lines_of(t)));
    }
    lemma_rows_concat(name + model + tools + policy + memory + turns + mins, task);
    let hint = definition::text_row("task_hint: "@, d.task_hint);
    lemma_text_row("task_hint: "@, d.task_hint);
    lemma_rows_concat(name + model + tools + policy + memory + turns + mins + task, hint);
}

/// No line feed of joined rows is followed by a dash, nor the last character.
proof fn lemma_no_fence(rows: Seq<Seq<char>>)
    requires
        rows.len() > 0,
        rows_like(rows),
    ensures
        ({
            let f = text::joined(rows, "\n"@);
            &&& f.len() > 0
            &&& f[0] == rows[0][0]
            &&& f.last() != '\n'
            &&& forall|j: int| 0 <= j < f.len() - 1 && f[j] == '\n' ==> #[trigger] f[j + 1] != '-'
        }),
    decreases rows.len(),
{
    reveal_strlit("\n");
    let f = text::joined(rows, "\n"@);
    let l = rows.last();
    assert(row_like(rows[rows.len() - 1]));
    if rows.len() == 1 {
        assert(f == rows[0]);
        assert(f[f.len() - 1] != '\n');
    } else {
        let before = rows.drop_last();
        assert forall|i: int| 0 <= i < before.len() implies row_like(#[trigger] before[i]) by {
            assert(before[i] == rows[i]);
        }
        lemma_no_fence(before);
        let g = text::joined(before, "\n"@);
        assert(f == g + "\n"@ + l);
        let n = g.len() as int;
        assert(f.last() == l[l.len() - 1]);
        assert forall|j: int| 0 <= j < f.len() - 1 && f[j] == '\n' implies #[trigger] f[j + 1]
            != '-' by {
            if j < n - 1 {
                assert(f[j] == g[j]);
                assert(f[j + 1] == g[j + 1]);
            } else if j == n - 1 {
                assert(f[j] == g.last());
            } else if j == n {
                assert(f[j + 1] == l[0]);
            } else {
                assert(f[j] == l[j - n - 1]);
            }
        }
    }
}

/// The closing fence is the first place where a line feed precedes three dashes.
proof fn lemma_fence(rows: Seq<Seq<char>>, tail: Seq<char>)
    requires
        rows.len() > 0,
        rows_like(rows),
    ensures
        ({
            let f = "\n"@ + text::joined(rows, "\n"@);
            text::first_of(f + "\n---"@ + tail, "\n---"@) == Some(f.len() as int)
        }),
{
    reveal_strlit("\n");
    reveal_strlit("\n---");
    lemma_no_fence(rows);
    let j = text::joined(rows, "\n"@);
    let f = "\n"@ + j;
    let rest = f + "\n---"@ + tail;
    let n = f.len() as int;
    assert(rest.subrange(n, n + 4) =~= "\n---"@);
    assert forall|i: int| 0 <= i < n implies !#[trigger] text::occurs_at(rest, "\n---"@, i) by {
        if text::occurs_at(rest, "\n---"@, i) {
            let w = rest.subrange(i, i + 4);
            assert(w[0] == rest[i]);
            assert(w[1] == rest[i + 1]);
            assert(rest[i] == f[i]);
            if i == 0 {
                assert(rest[1] == j[0]);
                assert(row_like(rows[0]));
            } else if i < n - 1 {
                assert(rest[i] == j[i - 1]);
                assert(rest[i + 1] == j[(i - 1) + 1]);
            } else {
                assert(rest[i] == j.last());
            }
        }
    }
    text_facts::lemma_find_is(rest, "\n---"@, 0, n);
}

/// The front matter and the body of a written document.
proof fn lemma_document(rows: Seq<Seq<char>>, body: Seq<char>)
    requires
        rows.len() > 0,
        rows_like(rows),
        text_facts::tight(body),
    ensures
        definition::document(
            text::joined(seq!["---"@] + rows + seq!["---"@], "\n"@) + "\n\n"@ + body,
        ) == (Some("\n"@ + text::joined(rows, "\n"@)), body),
{
    reveal_strlit("---");
    reveal_strlit("\n");
    reveal_strlit("\n\n");
    reveal_strlit("\n---");
    let j = text::joined(rows, "\n"@);
    let f = "\n"@ + j;
    let whole = text::joined(seq!["---"@] + rows + seq!["---"@], "\n"@);
    text_facts::lemma_joined_append(seq!["---"@] + rows, seq!["---"@], "\n"@);
    text_facts::lemma_joined_cons("---"@, rows, "\n"@);
    assert(text::joined(seq!["---"@], "\n"@) == "---"@);
    lemma_no_fence(rows);
    let core = "---"@ + f + "\n---"@;
    assert(whole =~= core);
    let md = whole + "\n\n"@ + body;
    let empty = Seq::<char>::empty();
    assert(text::blank(empty));
    assert(text::blank("\n\n"@));
    // What trimming leaves of the document.
    let tail = if body.len() > 0 {
        "\n\n"@ + body
    } else {
        empty
    };
    let t = core + tail;
    if body.len() > 0 {
        assert(md =~= empty + t + empty);
        assert(t.last() == body.last());
        text_facts::lemma_trim_around(empty, t, empty);
    } else {
        assert(md =~= empty + t + "\n\n"@);
        assert(t.last() == '-');
        text_facts::lemma_trim_around(empty, t, "\n\n"@);
    }
    assert(text::trimmed(md) == t);
    assert(t.subrange(0, 3) =~= "---"@);
    let rest = t.skip(3);
    assert(rest =~= f + "\n---"@ + tail);
    let n = f.len() as int;
    lemma_fence(rows, tail);
    assert(rest.take(n) =~= f);
    assert(rest.skip(n + 4) =~= tail);
    if body.len() > 0 {
        assert(tail =~= "\n\n"@ + body + empty);
        text_facts::lemma_trim_around("\n\n"@, body, empty);
    } else {
        text_facts::lemma_tight(empty);
        assert(body =~= empty);
    }
}

/// The lines of written front matter are an empty one and the rows.
proof fn lemma_front_lines(rows: Seq<Seq<char>>)
    requires
        rows.len() > 0,
        rows_like(rows),
    ensures
        text::lines_of("\n"@ + text::joined(rows, "\n"@)) == seq![Seq::<char>::empty()] + rows,
{
    reveal_strlit("\n");
    let empty = Seq::<char>::empty();
    let ls = seq![empty] + rows;
    text_facts::lemma_joined_cons(empty, rows, "\n"@);
    assert("\n"@ + text::joined(rows, "\n"@) =~= text::joined(ls, "\n"@));
    assert forall|i: int| 0 <= i < ls.len() implies text_facts::line_like(#[trigger] ls[i]) by {
        if i > 0 {
            assert(row_like(rows[i - 1]));
        }
    }
    assert(row_like(rows[rows.len() - 1]));
    assert(ls.last() == rows.last());
    text_facts::lemma_lines_of_joined(ls);
}

proof fn lemma_keys()
    ensures
        key_like("name"@) && "name: "@ == "name"@ + seq![':', ' '],
        key_like("model"@) && "model: "@ == "model"@ + seq![':', ' '],
        key_like("tools"@) && "tools:"@ == "tools"@ + seq![':'],
        key_like("policy"@) && "policy: "@ == "policy"@ + seq![':', ' '],
        key_like("memory_window"@) && "memory_window: "@ == "memory_window"@ + seq![':', ' '],
        key_like("max_turns"@) && "max_turns: "@ == "max_turns"@ + seq![':', ' '],
        key_like("schedule_mins"@) && "schedule_mins: "@ == "schedule_mins"@ + seq![':', ' '],
        key_like("task"@) && "task: |"@ == "task"@ + seq![':', ' '] + "|"@,
        key_like("task_hint"@) && "task_hint: "@ == "task_hint"@ + seq![':', ' '],
        plain("|"@),
{
    reveal_strlit("name");
    reveal_strlit("name: ");
    assert("name: "@ =~= "name"@ + seq![':', ' ']);
    reveal_strlit("model");
    reveal_strlit("model: ");
    assert("model: "@ =~= "model"@ + seq![':', ' ']);
    reveal_strlit("tools");
    reveal_strlit("tools:");
    assert("tools:"@ =~= "tools"@ + seq![':']);
    reveal_strlit("policy");
    reveal_strlit("policy: ");
    assert("policy: "@ =~= "policy"@ + seq![':', ' ']);
    reveal_strlit("memory_window");
    reveal_strlit("memory_window: ");
    assert("memory_window: "@ =~= "memory_window"@ + seq![':', ' ']);
    reveal_strlit("max_turns");
    reveal_strlit("max_turns: ");
    assert("max_turns: "@ =~= "max_turns"@ + seq![':', ' ']);
    reveal_strlit("schedule_mins");
    reveal_strlit("schedule_mins: ");
    assert("schedule_mins: "@ =~= "schedule_mins"@ + seq![':', ' ']);
    reveal_strlit("task");
    reveal_strlit("|");
    reveal_strlit("task: |");
    assert("task: |"@ =~= "task"@ + seq![':', ' '] + "|"@);
    reveal_strlit("task_hint");
    reveal_strlit("task_hint: ");
    assert("task_hint: "@ =~= "task_hint"@ + seq![':', ' ']);
}

/// What each field does to a definition that is being read.
proof fn lemma_set(st: DefReaderView, v: Seq<char>)
    ensures
        definition::set_field(st, "name"@, v) == (DefReaderView {
            def: AgentDefView { name: v, ..st.def },
            ..st
        }),
        v.len() > 0 ==> definition::set_field(st, "model"@, v) == (DefReaderView {
            def: AgentDefView { model: Some(v), ..st.def },
            ..st
        }),
        v.len() == 0 ==> definition::set_field(st, "tools"@, v) == (DefReaderView {
            in_tools: true,
            ..st
        }),
        definition::set_field(st, "policy"@, v) == (DefReaderView {
            def: AgentDefView { policy: v, ..st.def },
            ..st
        }),
        definition::set_field(st, "memory_window"@, v) == (DefReaderView {
            def: AgentDefView { memory_window: text::size_in(v), ..st.def },
            ..st
        }),
        definition::set_field(st, "max_turns"@, v) == (DefReaderView {
            def: AgentDefView { max_turns: text::size_in(v), ..st.def },
            ..st
        }),
        definition::set_field(st, "schedule_mins"@, v) == (DefReaderView {
            def: AgentDefView { schedule_mins: text::u64_in(v), ..st.def },
            ..st
        }),
        v.len() > 0 ==> definition::set_field(st, "task_hint"@, v) == (DefReaderView {
            def: AgentDefView { task_hint: Some(v), ..st.def },
            ..st
        }),
        v == "|"@ ==> definition::set_field(st, "task"@, v) == (DefReaderView {
            in_task: true,
            ..st
        }),
{
    reveal_strlit("name");
    reveal_strlit("model");
    reveal_strlit("tools");
    reveal_strlit("policy");
    reveal_strlit("memory_window");
    reveal_strlit("max_turns");
    reveal_strlit("schedule_mins");
    reveal_strlit("task");
    reveal_strlit("task_hint");
    reveal_strlit("|");
    assert("name"@.len() == 4 && "task"@.len() == 4 && "model"@.len() == 5);
    assert("tools"@.len() == 5 && "policy"@.len() == 6 && "memory_window"@.len() == 13);
    assert("max_turns"@.len() == 9 && "schedule_mins"@.len() == 13 && "task_hint"@.len() == 9);
    assert("name"@[0] == 'n' && "task"@[0] == 't');
    assert("model"@[0] == 'm' && "tools"@[0] == 't');
    assert("memory_window"@[0] == 'm' && "schedule_mins"@[0] == 's');
    assert("max_turns"@[0] == 'm' && "task_hint"@[0] == 't');
}

/// A written optional text is read back, and an absent one is left out.
proof fn lemma_read_option(st: DefReaderView, prefix: Seq<char>, k: Seq<char>, v: Option<Seq<char>>)
    requires
        key_like(k),
        prefix == k + seq![':', ' '],
        plain_option(v),
    ensures
        definition::read_lines(st, definition::text_row(prefix, v)) == match v {
            Some(t) => definition::set_field(
                definition::close_tools(definition::close_task(st)),
                k,
                t,
            ),
            None => st,
        },
{
    if let Some(t) = v {
        lemma_read_one(st, prefix + t);
        lemma_read_field(st, prefix, k, t);
    }
}

/// A written number is read as its numeral, and an absent one is left out.
proof fn lemma_read_number(st: DefReaderView, prefix: Seq<char>, k: Seq<char>, v: Option<nat>)
    requires
        key_like(k),
        prefix == k + seq![':', ' '],
    ensures
        definition::read_lines(st, definition::number_row(prefix, v)) == match v {
            Some(n) => definition::set_field(
                definition::close_tools(definition::close_task(st)),
                k,
                text::decimal(n),
            ),
            None => st,
        },
{
    if let Some(n) = v {
        lemma_read_one(st, prefix + text::decimal(n));
        lemma_decimal_plain(n);
        lemma_read_field(st, prefix, k, text::decimal(n));
    }
}

/// The rows of the tools leave the list open behind them.
proof fn lemma_read_tools(st: DefReaderView, tools: Seq<Seq<char>>)
    requires
        !st.in_tools,
        !st.in_task,
        st.tools.len() == 0,
        forall|i: int| 0 <= i < tools.len() ==> item_like(#[trigger] tools[i]),
    ensures
        definition::read_lines(st, definition::tool_rows(tools)) == (DefReaderView {
            tools,
            in_tools: tools.len() > 0,
            ..st
        }),
{
    if tools.len() > 0 {
        let items = definition::prefixed("  - "@, tools);
        lemma_read_concat(st, seq!["tools:"@], items);
        lemma_read_one(st, "tools:"@);
        lemma_keys();
        let empty = Seq::<char>::empty();
        let row = "tools:"@;
        assert(row.last() == ':');
        assert(row[0] == "tools"@[0]);
        text_facts::lemma_tight(row);
        assert(row =~= "tools"@ + seq![':'] + empty);
        assert(text::first_char(empty, '#') is None);
        text_facts::lemma_tight(empty);
        lemma_read_pair(st, row, "tools"@, empty, empty);
        lemma_set(st, empty);
        lemma_read_items(definition::read_line(st, row), tools);
        assert(st.tools + tools =~= tools);
    } else {
        assert(st.tools =~= tools);
    }
}

/// The rows of the task leave the block open behind them.
proof fn lemma_read_task(st: DefReaderView, task: Option<Seq<char>>)
    requires
        !st.in_tools,
        !st.in_task,
        st.task_body.len() == 0,
        task matches Some(t) ==> block_like(t),
    ensures
        definition::read_lines(st, definition::task_rows(task)) == (match task {
            Some(t) => DefReaderView { task_body: t, in_task: true, ..st },
            None => st,
        }),
{
    if let Some(t) = task {
        let ls = text::lines_of(t);
        let items = definition::prefixed("  "@, ls);
        lemma_read_concat(st, seq!["task: |"@], items);
        lemma_read_one(st, "task: |"@);
        lemma_keys();
        lemma_read_field(st, "task"@ + seq![':', ' '], "task"@, "|"@);
        lemma_set(st, "|"@);
        reveal_strlit("\n");
        if ls.len() > 0 && ls[0].len() == 0 {
            if ls.len() == 1 {
                assert(t =~= ls[0]);
                assert(text::lines_of(t).len() == 0);
            } else {
                let rest = ls.drop_first();
                assert(ls =~= seq![ls[0]] + rest);
                text_facts::lemma_joined_cons(ls[0], rest, "\n"@);
                assert(t[0] == '\n');
            }
        }
        lemma_read_block(definition::read_line(st, "task: |"@), ls);
    }
}

/// The state after the name, the model, the tools and the policy.
spec fn after_head(s0: DefReaderView, d: AgentDefView) -> DefReaderView {
    DefReaderView {
        def: AgentDefView {
            name: d.name,
            model: d.model,
            tools: d.tools,
            policy: d.policy,
            ..s0.def
        },
        ..s0
    }
}

proof fn lemma_read_head(d: AgentDefView, base: AgentDefView)
    requires
        writable(d),
        base == definition::fresh_def(base),
    ensures
        definition::read_lines(
            definition::reading(base),
            seq!["name: "@ + d.name] + definition::text_row("model: "@, d.model)
                + definition::tool_rows(d.tools) + seq!["policy: "@ + d.policy],
        ) == after_head(definition::reading(base), d),
{
    lemma_keys();
    let s0 = definition::reading(base);
    let name = seq!["name: "@ + d.name];
    lemma_read_one(s0, "name: "@ + d.name);
    lemma_read_field(s0, "name: "@, "name"@, d.name);
    lemma_set(s0, d.name);
    let s1 = DefReaderView { def: AgentDefView { name: d.name, ..s0.def }, ..s0 };
    assert(definition::read_lines(s0, name) == s1);
    let model = definition::text_row("model: "@, d.model);
    lemma_read_concat(s0, name, model);
    lemma_read_option(s1, "model: "@, "model"@, d.model);
    if let Some(m) = d.model {
        lemma_set(s1, m);
    }
    let s2 = DefReaderView { def: AgentDefView { model: d.model, ..s1.def }, ..s1 };
    assert(definition::read_lines(s0, name + model) == s2);
    let tools = definition::tool_rows(d.tools);
    lemma_read_concat(s0, name + model, tools);
    lemma_read_tools(s2, d.tools);
    let s3 = DefReaderView { tools: d.tools, in_tools: d.tools.len() > 0, ..s2 };
    assert(definition::read_lines(s0, name + model + tools) == s3);
    let policy = seq!["policy: "@ + d.policy];
    lemma_read_concat(s0, name + model + tools, policy);
    lemma_read_one(s3, "policy: "@ + d.policy);
    lemma_read_field(s3, "policy: "@, "policy"@, d.policy);
    lemma_set(definition::close_tools(s3), d.policy);
    assert(definition::read_lines(s0, name + model + tools + policy) =~= after_head(s0, d));
}

/// The state after the three numbers.
spec fn after_numbers(st: DefReaderView, d: AgentDefView) -> DefReaderView {
    DefReaderView {
        def: AgentDefView {
            memory_window: d.memory_window,
            max_turns: d.max_turns,
            schedule_mins: d.schedule_mins,
            ..st.def
        },
        ..st
    }
}

proof fn lemma_read_numbers(s0: DefReaderView, head: Seq<Seq<char>>, d: AgentDefView)
    requires
        ({
            let st = definition::read_lines(s0, head);
            !st.in_tools && !st.in_task && st.def.memory_window is None && st.def.max_turns is None
                && st.def.schedule_mins is None
        }),
    ensures
        definition::read_lines(
            s0,
            head + definition::number_row("memory_window: "@, definition::size_of(d.memory_window))
                + definition::number_row("max_turns: "@, definition::size_of(d.max_turns))
                + definition::number_row(
                "schedule_mins: "@,
                definition::minutes_of(d.schedule_mins),
            ),
        ) == after_numbers(definition::read_lines(s0, head), d),
{
    lemma_keys();
    let s4 = definition::read_lines(s0, head);
    let mem = definition::size_of(d.memory_window);
    let memory = definition::number_row("memory_window: "@, mem);
    lemma_read_concat(s0, head, memory);
    lemma_read_number(s4, "memory_window: "@, "memory_window"@, mem);
    if let Some(n) = mem {
        lemma_set(s4, text::decimal(n));
        text_facts::law_numeral_reads_back(n, usize::MAX as nat);
    }
    let s5 = DefReaderView {
        def: AgentDefView { memory_window: d.memory_window, ..s4.def },
        ..s4
    };
    assert(definition::read_lines(s0, head + memory) == s5);
    let max = definition::size_of(d.max_turns);
    let turns = definition::number_row("max_turns: "@, max);
    lemma_read_concat(s0, head + memory, turns);
    lemma_read_number(s5, "max_turns: "@, "max_turns"@, max);
    if let Some(n) = max {
        lemma_set(s5, text::decimal(n));
        text_facts::law_numeral_reads_back(n, usize::MAX as nat);
    }
    let s6 = DefReaderView { def: AgentDefView { max_turns: d.max_turns, ..s5.def }, ..s5 };
    assert(definition::read_lines(s0, head + memory + turns) == s6);
    let every = definition::minutes_of(d.schedule_mins);
    let mins = definition::number_row("schedule_mins: "@, every);
    lemma_read_concat(s0, head + memory + turns, mins);
    lemma_read_number(s6, "schedule_mins: "@, "schedule_mins"@, every);
    if let Some(n) = every {
        lemma_set(s6, text::decimal(n));
        text_facts::law_numeral_reads_back(n, u64::MAX as nat);
    }
}

proof fn lemma_read_tail(s0: DefReaderView, head: Seq<Seq<char>>, d: AgentDefView)
    requires
        writable(d),
        ({
            let st = definition::read_lines(s0, head);
            st == definition::reading(st.def) && st.def.task is None && st.def.task_hint is None
        }),
    ensures
        definition::finished(
            definition::read_lines(
                s0,
                head + definition::task_rows(d.task) + definition::text_row(
                    "task_hint: "@,
                    d.task_hint,
                ),
            ),
        ) == (AgentDefView {
            task: d.task,
            task_hint: d.task_hint,
            ..definition::read_lines(s0, head).def
        }),
{
    lemma_keys();
    let s7 = definition::read_lines(s0, head);
    let task = definition::task_rows(d.task);
    lemma_read_concat(s0, head, task);
    lemma_read_task(s7, d.task);
    let s8 = match d.task {
        Some(t) => DefReaderView { task_body: t, in_task: true, ..s7 },
        None => s7,
    };
    let hint = definition::text_row("task_hint: "@, d.task_hint);
    lemma_read_concat(s0, head + task, hint);
    lemma_read_option(s8, "task_hint: "@, "task_hint"@, d.task_hint);
    if let Some(t) = d.task {
        text_facts::lemma_tight(t);
    }
    if let Some(h) = d.task_hint {
        lemma_set(definition::close_task(s8), h);
    }
}

/// Reading the written front matter gives back every field.
proof fn lemma_read_front(d: AgentDefView, base: AgentDefView)
    requires
        writable(d),
        base == definition::fresh_def(base),
    ensures
        definition::finished(
            definition::read_lines(definition::reading(base), definition::front_rows(d)),
        ) == (AgentDefView {
            id: base.id,
            team_id: base.team_id,
            builtin: base.builtin,
            instructions: base.instructions,
            ..d
        }),
{
    let s0 = definition::reading(base);
    let head = seq!["name: "@ + d.name] + definition::text_row("model: "@, d.model)
        + definition::tool_rows(d.tools) + seq!["policy: "@ + d.policy];
    lemma_read_head(d, base);
    lemma_read_numbers(s0, head, d);
    let upto = head + definition::number_row(
        "memory_window: "@,
        definition::size_of(d.memory_window),
    ) + definition::number_row("max_turns: "@, definition::size_of(d.max_turns))
        + definition::number_row("schedule_mins: "@, definition::minutes_of(d.schedule_mins));
    lemma_read_tail(s0, upto, d);
}

/// Reading the document of a definition gives the definition back: the document
/// carries all of it but the id, the team and the built-in mark, which come from
/// the definition that is being edited.
pub proof fn law_definition_reads_back(d: AgentDefView, fallback: AgentDefView)
    requires
        writable(d),
        fallback.id == d.id,
        fallback.team_id == d.team_id,
        fallback.builtin == d.builtin,
    ensures
        definition::parsed_def(definition::written_def(d), fallback) == d,
{
    let rows = definition::front_rows(d);
    lemma_front_rows(d);
    lemma_document(rows, d.instructions);
    lemma_front_lines(rows);
    let base = definition::fresh_def(fallback);
    let s0 = definition::reading(base);
    let empty = Seq::<char>::empty();
    lemma_read_concat(s0, seq![empty], rows);
    lemma_read_one(s0, empty);
    text_facts::lemma_tight(empty);
    assert(definition::read_line(s0, empty) == s0);
    assert(base =~= definition::fresh_def(base));
    lemma_read_front(d, base);
}

} // verus!
