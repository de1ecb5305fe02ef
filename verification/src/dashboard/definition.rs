//! Agent definitions as markdown documents with a front matter block.

use crate::dashboard::api::{AgentDef, AgentDefView};
use crate::text;
use crate::text_facts;
use vstd::prelude::*;

verus! {

/// The document that stands for a definition with neither name nor id.
pub const TEMPLATE: &'static str = "---
name: 
model:  # leave empty for default
tools:
  - write_file
  # - delete_file
  # - run_command
  # - web_search
  # - add_task
  # - spawn_agent
policy: auto_approve  # auto_approve or deny_destructive
memory_window: 20  # conversation window
max_turns: 10  # max turns before stopping
schedule_mins:  # set to run on N-minute interval (blank = on-demand)
task:  # recurring task description (if scheduled)
task_hint:  # placeholder shown in the spawn task textarea (optional)
---

# Agent instructions

Describe what this agent should do...
";

/// A definition of team `team_id` in which nothing else is filled in.
pub open spec fn empty_def(team_id: Seq<char>) -> AgentDefView {
    AgentDefView {
        id: Seq::empty(),
        team_id,
        name: Seq::empty(),
        model: None,
        instructions: Seq::empty(),
        tools: Seq::empty(),
        policy: "auto_approve"@,
        memory_window: None,
        max_turns: None,
        schedule_mins: None,
        task: None,
        task_hint: None,
        builtin: false,
    }
}

/// A definition of team `team_id` in which nothing else is filled in.
pub fn blank_def(team_id: String) -> (r: AgentDef)
    ensures
        r@ == empty_def(team_id@),
{
    let r = AgentDef {
        id: String::new(),
        team_id,
        name: String::new(),
        model: None,
        instructions: String::new(),
        tools: Vec::new(),
        policy: "auto_approve".to_string(),
        memory_window: None,
        max_turns: None,
        schedule_mins: None,
        task: None,
        task_hint: None,
        builtin: false,
    };
    assert(r@ =~= empty_def(team_id@));
    r
}

/// The front matter and the body of a document; no front matter where the
/// document does not open with three dashes.
pub open spec fn document(md: Seq<char>) -> (Option<Seq<char>>, Seq<char>) {
    let t = text::trimmed(md);
    if !text::begins_with(t, "---"@) {
        (None, t)
    } else {
        let rest = t.skip(3);
        match text::first_of(rest, "\n---"@) {
            Some(i) => (Some(rest.take(i)), text::trimmed(rest.skip(i + 4))),
            None => (Some(rest), Seq::empty()),
        }
    }
}

/// Splits a document into its front matter, if it has one, and its body.
pub fn split_document<'a>(md: &'a str) -> (r: (Option<&'a str>, &'a str))
    ensures
        document(md@) == (
            match r.0 {
                Some(f) => Some(f@),
                None => None,
            },
            r.1@,
        ),
{
    proof {
        reveal_strlit("---");
        reveal_strlit("\n---");
        reveal_strlit("");
    }
    let t = text::trim(md);
    if !text::starts_with(t, "---") {
        return (None, t);
    }
    let rest = text::skip(t, 3);
    match text::find(rest, "\n---") {
        Some(i) => {
            let n = rest.unicode_len();
            assert(i + 4 <= n);
            (Some(text::take(rest, i)), text::trim(text::skip(rest, i + 4)))
        },
        None => {
            assert(""@ =~= Seq::<char>::empty());
            (Some(rest), "")
        },
    }
}

/// The value of a field: what stands before a comment sign, trimmed.
pub open spec fn field_value(v: Seq<char>) -> Seq<char> {
    text::trimmed(text::before_char(v, '#'))
}

/// `v` is a list written between square brackets.
pub open spec fn bracketed(v: Seq<char>) -> bool {
    text::heads(v, '[') && text::tails(v, ']')
}

/// The items of a list written between square brackets.
pub open spec fn bracket_items(v: Seq<char>) -> Seq<Seq<char>> {
    text::comma_items(v.subrange(1, v.len() - 1))
}

/// The items of a list written between square brackets.
pub(crate) fn read_brackets(v: &str) -> (r: Vec<String>)
    requires
        bracketed(v@),
    ensures
        text::views(r@) == bracket_items(v@),
{
    let n = v.unicode_len();
    assert(n >= 2);
    text::split_commas(v.substring_char(1, n - 1))
}

/// A definition while its front matter is read line by line: `tools` holds the
/// items of an open tool list, `task_body` the text of an open task block.
#[verifier::ext_equal]
pub struct DefReaderView {
    pub def: AgentDefView,
    pub tools: Seq<Seq<char>>,
    pub in_tools: bool,
    pub task_body: Seq<char>,
    pub in_task: bool,
}

/// Where reading starts: only who the definition belongs to is known.
pub open spec fn fresh_def(fallback: AgentDefView) -> AgentDefView {
    AgentDefView {
        id: fallback.id,
        name: fallback.name,
        builtin: fallback.builtin,
        ..empty_def(fallback.team_id)
    }
}

pub open spec fn reading(def: AgentDefView) -> DefReaderView {
    DefReaderView {
        def,
        tools: Seq::empty(),
        in_tools: false,
        task_body: Seq::empty(),
        in_task: false,
    }
}

/// An open task block takes in `line`: it is indented or blank.
pub open spec fn continues_task(st: DefReaderView, line: Seq<char>) -> bool {
    st.in_task && (text::begins_with(line, "  "@) || text::trimmed(line).len() == 0)
}

/// The task block `body` with one more line.
pub open spec fn task_line(body: Seq<char>, line: Seq<char>) -> Seq<char> {
    let head = if body.len() > 0 {
        body.push('\n')
    } else {
        body
    };
    head + text::trimmed(text::trimmed(line))
}

/// An open task block ends.
pub open spec fn close_task(st: DefReaderView) -> DefReaderView {
    if st.in_task {
        DefReaderView {
            def: AgentDefView { task: Some(text::trimmed(st.task_body)), ..st.def },
            task_body: Seq::empty(),
            in_task: false,
            ..st
        }
    } else {
        st
    }
}

/// An open tool list ends.
pub open spec fn close_tools(st: DefReaderView) -> DefReaderView {
    if st.in_tools {
        DefReaderView {
            def: AgentDefView { tools: st.tools, ..st.def },
            tools: Seq::empty(),
            in_tools: false,
            ..st
        }
    } else {
        st
    }
}

/// The field `k` has the value `v`.
pub open spec fn set_field(st: DefReaderView, k: Seq<char>, v: Seq<char>) -> DefReaderView {
    let def = st.def;
    if k == "name"@ {
        DefReaderView { def: AgentDefView { name: v, ..def }, ..st }
    } else if k == "model"@ && v.len() > 0 {
        DefReaderView { def: AgentDefView { model: Some(v), ..def }, ..st }
    } else if k == "tools"@ && (v.len() == 0 || v == "[]"@) {
        DefReaderView { in_tools: true, ..st }
    } else if k == "tools"@ && bracketed(v) {
        DefReaderView { def: AgentDefView { tools: bracket_items(v), ..def }, ..st }
    } else if k == "policy"@ {
        DefReaderView { def: AgentDefView { policy: v, ..def }, ..st }
    } else if k == "memory_window"@ {
        DefReaderView { def: AgentDefView { memory_window: text::size_in(v), ..def }, ..st }
    } else if k == "max_turns"@ {
        DefReaderView { def: AgentDefView { max_turns: text::size_in(v), ..def }, ..st }
    } else if k == "schedule_mins"@ {
        DefReaderView { def: AgentDefView { schedule_mins: text::u64_in(v), ..def }, ..st }
    } else if k == "task_hint"@ && v.len() > 0 {
        DefReaderView { def: AgentDefView { task_hint: Some(v), ..def }, ..st }
    } else if k == "task"@ && v == "|"@ {
        DefReaderView { in_task: true, ..st }
    } else if k == "task"@ && v.len() > 0 {
        DefReaderView { def: AgentDefView { task: Some(v), ..def }, ..st }
    } else {
        st
    }
}

/// A line that belongs to no open block: a blank line and a comment say
/// nothing, and neither does a line without a colon.
pub open spec fn read_plain(st: DefReaderView, t: Seq<char>) -> DefReaderView {
    if t.len() == 0 || text::heads(t, '#') {
        st
    } else {
        match text::split_pair(t, ':') {
            Some((k, v)) => set_field(st, text::trimmed(k), field_value(v)),
            None => st,
        }
    }
}

/// A line of the front matter outside a task block.
pub open spec fn read_listed(st: DefReaderView, t: Seq<char>) -> DefReaderView {
    if st.in_tools && text::heads(t, '#') {
        st
    } else if st.in_tools && text::begins_with(t, "- "@) {
        DefReaderView { tools: st.tools.push(text::trimmed(t.skip(2))), ..st }
    } else {
        read_plain(close_tools(st), t)
    }
}

/// One line of the front matter.
pub open spec fn read_line(st: DefReaderView, line: Seq<char>) -> DefReaderView {
    if continues_task(st, line) {
        DefReaderView { task_body: task_line(st.task_body, line), ..st }
    } else {
        read_listed(close_task(st), text::trimmed(line))
    }
}

/// The lines of the front matter in order.
pub open spec fn read_lines(st: DefReaderView, lines: Seq<Seq<char>>) -> DefReaderView
    decreases lines.len(),
{
    if lines.len() == 0 {
        st
    } else {
        read_line(read_lines(st, lines.drop_last()), lines.last())
    }
}

/// The definition at the end of the front matter, open blocks included.
pub open spec fn finished(st: DefReaderView) -> AgentDefView {
    AgentDefView {
        tools: if st.tools.len() > 0 {
            st.tools
        } else {
            st.def.tools
        },
        task: if st.in_task && st.task_body.len() > 0 {
            Some(text::trimmed(st.task_body))
        } else {
            st.def.task
        },
        ..st.def
    }
}

/// The definition that a document says; what the document leaves out is taken
/// from `fallback` for the id, the team, the name and the built-in mark.
pub open spec fn parsed_def(md: Seq<char>, fallback: AgentDefView) -> AgentDefView {
    let (front, body) = document(md);
    let def = match front {
        Some(f) => finished(read_lines(reading(fresh_def(fallback)), text::lines_of(f))),
        None => fresh_def(fallback),
    };
    AgentDefView { instructions: body, ..def }
}

/// A definition while its front matter is read line by line.
struct DefReader {
    def: AgentDef,
    tools: Vec<String>,
    in_tools: bool,
    task_body: String,
    in_task: bool,
}

impl DefReader {
    spec fn state(&self) -> DefReaderView {
        DefReaderView {
            def: self.def@,
            tools: text::views(self.tools@),
            in_tools: self.in_tools,
            task_body: self.task_body@,
            in_task: self.in_task,
        }
    }

    fn new(fallback: &AgentDef) -> (r: DefReader)
        ensures
            r.state() == reading(fresh_def(fallback@)),
    {
        let mut def = blank_def(fallback.team_id.clone());
        def.id = fallback.id.clone();
        def.name = fallback.name.clone();
        def.builtin = fallback.builtin;
        let r = DefReader {
            def,
            tools: Vec::new(),
            in_tools: false,
            task_body: String::new(),
            in_task: false,
        };
        assert(r.state() =~= reading(fresh_def(fallback@)));
        r
    }

    fn set(&mut self, k: &str, v: &str)
        ensures
            final(self).state() == set_field(old(self).state(), k@, v@),
    {
        if text::same(k, "name") {
            self.def.name = v.to_string();
        } else if text::same(k, "model") && !v.is_empty() {
            self.def.model = Some(v.to_string());
        } else if text::same(k, "tools") && (v.is_empty() || text::same(v, "[]")) {
            self.in_tools = true;
        } else if text::same(k, "tools") && text::starts_with_char(v, '[')
            && text::ends_with_char(v, ']') {
            self.def.tools = read_brackets(v);
        } else if text::same(k, "policy") {
            self.def.policy = v.to_string();
        } else if text::same(k, "memory_window") {
            self.def.memory_window = text::parse_usize(v);
        } else if text::same(k, "max_turns") {
            self.def.max_turns = text::parse_usize(v);
        } else if text::same(k, "schedule_mins") {
            self.def.schedule_mins = text::parse_u64(v);
        } else if text::same(k, "task_hint") && !v.is_empty() {
            self.def.task_hint = Some(v.to_string());
        } else if text::same(k, "task") && text::same(v, "|") {
            self.in_task = true;
        } else if text::same(k, "task") && !v.is_empty() {
            self.def.task = Some(v.to_string());
        }
    }

    fn line(&mut self, line: &str)
        ensures
            final(self).state() == read_line(old(self).state(), line@),
    {
        proof {
            reveal_strlit("- ");
        }
        let t = text::trim(line);
        if self.in_task {
            if text::starts_with(line, "  ") || t.is_empty() {
                if !self.task_body.as_str().is_empty() {
                    self.task_body.push('\n');
                }
                self.task_body.append(text::trim(t));
                return;
            }
            self.def.task = Some(text::trim(self.task_body.as_str()).to_string());
            self.task_body = String::new();
            self.in_task = false;
            assert(self.state() =~= close_task(old(self).state()));
        }
        let ghost mid = self.state();
        if self.in_tools {
            if text::starts_with_char(t, '#') {
                return;
            }
            if text::starts_with(t, "- ") {
                self.tools.push(text::trim(text::skip(t, 2)).to_string());
                assert(text::views(self.tools@) =~= mid.tools.push(text::trimmed(t@.skip(2))));
                return;
            }
            self.def.tools = text::copy_strings(&self.tools);
            self.tools = Vec::new();
            self.in_tools = false;
            assert(self.state() =~= close_tools(mid));
        }
        if t.is_empty() || text::starts_with_char(t, '#') {
            return;
        }
        if let Some((key, val)) = text::split_once(t, ':') {
            let v = text::trim(text::cut_at(val, '#'));
            self.set(text::trim(key), v);
        }
    }

    fn finish(self) -> (r: AgentDef)
        ensures
            r@ == finished(self.state()),
    {
        let mut def = self.def;
        if self.in_task && !self.task_body.as_str().is_empty() {
            def.task = Some(text::trim(self.task_body.as_str()).to_string());
        }
        if self.tools.len() > 0 {
            def.tools = self.tools;
        }
        def
    }
}

/// Reads an agent definition from its markdown document.
pub fn md_to_agent_def(md: &str, fallback: &AgentDef) -> (r: AgentDef)
    ensures
        r@ == parsed_def(md@, fallback@),
{
    let (front, body) = split_document(md);
    let mut reader = DefReader::new(fallback);
    if let Some(f) = front {
        let lines = text::lines(f);
        let ghost start = reader.state();
        let mut i: usize = 0;
        assert(text::views(lines@).take(0) =~= Seq::<Seq<char>>::empty());
        while i < lines.len()
            invariant
                i <= lines.len(),
                reader.state() == read_lines(start, text::views(lines@).take(i as int)),
            decreases lines.len() - i,
        {
            proof {
                let p = text::views(lines@).take(i + 1);
                assert(p.drop_last() =~= text::views(lines@).take(i as int));
                assert(p.last() == lines[i as int]@);
            }
            reader.line(lines[i].as_str());
            i += 1;
        }
        assert(text::views(lines@).take(i as int) =~= text::views(lines@));
    } else {
        assert(finished(reading(fresh_def(fallback@))) =~= fresh_def(fallback@));
    }
    let mut def = reader.finish();
    def.instructions = body.to_string();
    def
}

/// Each item with `prefix` before it.
pub open spec fn prefixed(prefix: Seq<char>, items: Seq<Seq<char>>) -> Seq<Seq<char>> {
    Seq::new(items.len(), |i: int| prefix + items[i])
}

/// The front matter line of an optional text field.
pub open spec fn text_row(prefix: Seq<char>, v: Option<Seq<char>>) -> Seq<Seq<char>> {
    match v {
        Some(t) => seq![prefix + t],
        None => Seq::empty(),
    }
}

/// The front matter line of an optional number.
pub open spec fn number_row(prefix: Seq<char>, v: Option<nat>) -> Seq<Seq<char>> {
    match v {
        Some(n) => seq![prefix + text::decimal(n)],
        None => Seq::empty(),
    }
}

/// The front matter lines of the tools: none for an empty list.
pub open spec fn tool_rows(tools: Seq<Seq<char>>) -> Seq<Seq<char>> {
    if tools.len() > 0 {
        seq!["tools:"@] + prefixed("  - "@, tools)
    } else {
        Seq::empty()
    }
}

/// The front matter lines of the recurring task, written as a block.
pub open spec fn task_rows(task: Option<Seq<char>>) -> Seq<Seq<char>> {
    match task {
        Some(t) => seq!["task: |"@] + prefixed("  "@, text::lines_of(t)),
        None => Seq::empty(),
    }
}

pub open spec fn size_of(v: Option<usize>) -> Option<nat> {
    match v {
        Some(n) => Some(n as nat),
        None => None,
    }
}

pub open spec fn minutes_of(v: Option<u64>) -> Option<nat> {
    match v {
        Some(n) => Some(n as nat),
        None => None,
    }
}

/// The lines of the front matter of a definition.
pub open spec fn front_rows(d: AgentDefView) -> Seq<Seq<char>> {
    seq!["name: "@ + d.name] + text_row("model: "@, d.model) + tool_rows(d.tools) + seq![
        "policy: "@ + d.policy,
    ] + number_row("memory_window: "@, size_of(d.memory_window)) + number_row(
        "max_turns: "@,
        size_of(d.max_turns),
    ) + number_row("schedule_mins: "@, minutes_of(d.schedule_mins)) + task_rows(d.task) + text_row(
        "task_hint: "@,
        d.task_hint,
    )
}

/// The document of a definition.
pub open spec fn written_def(d: AgentDefView) -> Seq<char> {
    if d.name.len() == 0 && d.id.len() == 0 {
        TEMPLATE@
    } else {
        text::joined(seq!["---"@] + front_rows(d) + seq!["---"@], "\n"@) + "\n\n"@
            + d.instructions
    }
}

/// Appends one line made of `prefix` and `rest`.
fn push_row(rows: &mut Vec<String>, prefix: &str, rest: &str)
    ensures
        text::views(final(rows)@) == text::views(old(rows)@) + seq![prefix@ + rest@],
{
    rows.push(text::cat(prefix, rest));
    assert(text::views(rows@) =~= text::views(old(rows)@) + seq![prefix@ + rest@]);
}

/// Appends the line of an optional text field.
fn push_text(rows: &mut Vec<String>, prefix: &str, v: &Option<String>)
    ensures
        text::views(final(rows)@) == text::views(old(rows)@) + text_row(
            prefix@,
            text::option_view(*v),
        ),
{
    match v {
        Some(t) => push_row(rows, prefix, t.as_str()),
        None => {
            assert(text::views(rows@) =~= text::views(rows@) + Seq::<Seq<char>>::empty());
        },
    }
}

/// Appends the line of an optional number.
fn push_number(rows: &mut Vec<String>, prefix: &str, v: Option<u64>)
    ensures
        text::views(final(rows)@) == text::views(old(rows)@) + number_row(
            prefix@,
            minutes_of(v),
        ),
{
    match v {
        Some(n) => push_row(rows, prefix, text::to_decimal(n).as_str()),
        None => {
            assert(text::views(rows@) =~= text::views(rows@) + Seq::<Seq<char>>::empty());
        },
    }
}

/// Appends each item as a line of its own after `prefix`.
fn push_all(rows: &mut Vec<String>, prefix: &str, items: &Vec<String>)
    ensures
        text::views(final(rows)@) == text::views(old(rows)@) + prefixed(
            prefix@,
            text::views(items@),
        ),
{
    let mut i: usize = 0;
    let ghost all = prefixed(prefix@, text::views(items@));
    assert(text::views(rows@) =~= text::views(old(rows)@) + all.take(0));
    while i < items.len()
        invariant
            i <= items.len(),
            all == prefixed(prefix@, text::views(items@)),
            text::views(rows@) == text::views(old(rows)@) + all.take(i as int),
        decreases items.len() - i,
    {
        push_row(rows, prefix, items[i].as_str());
        i += 1;
        assert(text::views(rows@) =~= text::views(old(rows)@) + all.take(i as int));
    }
    assert(all.take(i as int) =~= all);
}

fn as_minutes(v: Option<usize>) -> (r: Option<u64>)
    ensures
        minutes_of(r) == size_of(v),
{
    match v {
        Some(n) => Some(n as u64),
        None => None,
    }
}

/// Appends the lines of a block: its opening line, then each item after `prefix`.
fn push_block(rows: &mut Vec<String>, opening: &str, prefix: &str, items: &Vec<String>)
    ensures
        text::views(final(rows)@) == text::views(old(rows)@) + (seq![opening@] + prefixed(
            prefix@,
            text::views(items@),
        )),
{
    let ghost before = text::views(rows@);
    rows.push(opening.to_string());
    assert(text::views(rows@) =~= before + seq![opening@]);
    push_all(rows, prefix, items);
    assert(text::views(rows@) =~= before + (seq![opening@] + prefixed(
        prefix@,
        text::views(items@),
    )));
}

/// Appends the lines of the tools.
fn push_tools(rows: &mut Vec<String>, tools: &Vec<String>)
    ensures
        text::views(final(rows)@) == text::views(old(rows)@) + tool_rows(text::views(tools@)),
{
    if tools.len() > 0 {
        push_block(rows, "tools:", "  - ", tools);
    } else {
        assert(text::views(rows@) =~= text::views(rows@) + Seq::<Seq<char>>::empty());
    }
}

/// Appends the lines of the recurring task.
fn push_task(rows: &mut Vec<String>, task: &Option<String>)
    ensures
        text::views(final(rows)@) == text::views(old(rows)@) + task_rows(
            text::option_view(*task),
        ),
{
    match task {
        Some(t) => push_block(rows, "task: |", "  ", &text::lines(t.as_str())),
        None => {
            assert(text::views(rows@) =~= text::views(rows@) + Seq::<Seq<char>>::empty());
        },
    }
}

/// The lines of the front matter of a definition.
fn def_rows(def: &AgentDef) -> (r: Vec<String>)
    ensures
        text::views(r@) == front_rows(def@),
{
    let mut rows: Vec<String> = Vec::new();
    push_row(&mut rows, "name: ", def.name.as_str());
    assert(text::views(rows@) =~= seq!["name: "@ + def.name@]);
    push_text(&mut rows, "model: ", &def.model);
    push_tools(&mut rows, &def.tools);
    push_row(&mut rows, "policy: ", def.policy.as_str());
    push_number(&mut rows, "memory_window: ", as_minutes(def.memory_window));
    push_number(&mut rows, "max_turns: ", as_minutes(def.max_turns));
    push_number(&mut rows, "schedule_mins: ", def.schedule_mins);
    push_task(&mut rows, &def.task);
    push_text(&mut rows, "task_hint: ", &def.task_hint);
    rows
}

/// Writes an agent definition as a markdown document. One that has neither a
/// name nor an id yet is written as the template that shows every option.
pub fn agent_def_to_md(def: &AgentDef) -> (r: String)
    ensures
        r@ == written_def(def@),
{
    if def.name.as_str().is_empty() && def.id.as_str().is_empty() {
        return TEMPLATE.to_string();
    }
    let mut rows: Vec<String> = Vec::new();
    rows.push("---".to_string());
    assert(text::views(rows@) =~= seq!["---"@]);
    let ghost all = front_rows(def@);
    text::extend(&mut rows, &def_rows(def));
    rows.push("---".to_string());
    assert(text::views(rows@) =~= seq!["---"@] + all + seq!["---"@]);
    let mut out = text::join(&rows, "\n");
    out.append("\n\n");
    out.append(def.instructions.as_str());
    out
}

/// The instructions are the body of the document, with nothing taken from it but the white space
/// round it, and the front matter is what stands between the fences.
pub proof fn law_document_comes_apart(front: Seq<char>, a: Seq<char>, body: Seq<char>, b: Seq<char>)
    requires
        text_facts::first_after(front, "\n---"@, a + body + b),
        text::blank(a) && text::blank(b),
        text_facts::tight(body) && body.len() > 0,
    ensures
        document("---"@ + front + "\n---"@ + a + body + b) == (Some(front), body),
{
    reveal_strlit("---");
    reveal_strlit("\n---");
    let md = "---"@ + front + "\n---"@ + a + body + b;
    let core = "---"@ + front + "\n---"@ + a + body;
    assert(md =~= Seq::<char>::empty() + core + b);
    assert(core[0] == '-');
    text_facts::law_white_space('-');
    assert(core.last() == body.last());
    text_facts::lemma_trim_around(Seq::empty(), core, b);
    let rest = core.skip(3);
    assert(core.subrange(0, 3) =~= "---"@);
    assert(rest =~= front + "\n---"@ + (a + body));
    let n = front.len() as int;
    assert(rest.subrange(n, n + 4) =~= "\n---"@);
    let whole = front + "\n---"@ + (a + body + b);
    assert forall|j: int| 0 <= j < n implies !#[trigger] text::occurs_at(rest, "\n---"@, j) by {
        assert(!text::occurs_at(whole, "\n---"@, j));
        if text::occurs_at(rest, "\n---"@, j) {
            assert(whole.subrange(j, j + 4) =~= rest.subrange(j, j + 4));
        }
    }
    text_facts::lemma_find_is(rest, "\n---"@, 0, n);
    assert(rest.take(n) =~= front);
    let tail = rest.skip(n + 4);
    assert(tail =~= a + body + Seq::<char>::empty());
    text_facts::lemma_trim_around(a, body, Seq::empty());
}

/// A document without front matter is all instructions.
pub proof fn law_plain_document(md: Seq<char>, fallback: AgentDefView)
    requires
        !text::begins_with(text::trimmed(md), "---"@),
    ensures
        parsed_def(md, fallback).instructions == text::trimmed(md),
        parsed_def(md, fallback).name == fallback.name,
        parsed_def(md, fallback).id == fallback.id,
        parsed_def(md, fallback).team_id == fallback.team_id,
        parsed_def(md, fallback).builtin == fallback.builtin,
{
}

/// Whatever a document says, the definition stays the one that was opened, and its instructions
/// are the body.
pub proof fn law_identity_is_kept(md: Seq<char>, fallback: AgentDefView)
    ensures
        parsed_def(md, fallback).id == fallback.id,
        parsed_def(md, fallback).team_id == fallback.team_id,
        parsed_def(md, fallback).builtin == fallback.builtin,
        parsed_def(md, fallback).instructions == document(md).1,
{
    if let Some(f) = document(md).0 {
        lemma_identity(reading(fresh_def(fallback)), text::lines_of(f));
    }
}

proof fn lemma_identity(st: DefReaderView, lines: Seq<Seq<char>>)
    ensures
        ({
            let r = read_lines(st, lines);
            r.def.id == st.def.id && r.def.team_id == st.def.team_id && r.def.builtin
                == st.def.builtin
        }),
    decreases lines.len(),
{
    if lines.len() > 0 {
        lemma_identity(st, lines.drop_last());
    }
}

/// A field sets what it names to what it says, and nothing else.
pub proof fn law_fields_are_set(st: DefReaderView, v: Seq<char>, n: u64, size: usize)
    requires
        v.len() > 0,
    ensures
        set_field(st, "name"@, v) == (DefReaderView { def: AgentDefView { name: v, ..st.def }, ..st }),
        set_field(st, "model"@, v) == (DefReaderView {
            def: AgentDefView { model: Some(v), ..st.def },
            ..st
        }),
        set_field(st, "policy"@, v) == (DefReaderView {
            def: AgentDefView { policy: v, ..st.def },
            ..st
        }),
        set_field(st, "memory_window"@, text::decimal(size as nat)) == (DefReaderView {
            def: AgentDefView { memory_window: Some(size), ..st.def },
            ..st
        }),
        set_field(st, "max_turns"@, text::decimal(size as nat)) == (DefReaderView {
            def: AgentDefView { max_turns: Some(size), ..st.def },
            ..st
        }),
        set_field(st, "schedule_mins"@, text::decimal(n as nat)) == (DefReaderView {
            def: AgentDefView { schedule_mins: Some(n), ..st.def },
            ..st
        }),
        set_field(st, "task_hint"@, v) == (DefReaderView {
            def: AgentDefView { task_hint: Some(v), ..st.def },
            ..st
        }),
        v != "|"@ ==> set_field(st, "task"@, v) == (DefReaderView {
            def: AgentDefView { task: Some(v), ..st.def },
            ..st
        }),
{
    reveal_strlit("name");
    reveal_strlit("model");
    reveal_strlit("policy");
    reveal_strlit("tools");
    reveal_strlit("memory_window");
    reveal_strlit("max_turns");
    reveal_strlit("schedule_mins");
    reveal_strlit("task");
    reveal_strlit("task_hint");
    assert("name"@.len() == 4 && "name"@[0] == 'n' && "task"@.len() == 4 && "task"@[0] == 't');
    assert("model"@.len() == 5 && "model"@[0] == 'm' && "tools"@.len() == 5 && "tools"@[0] == 't');
    assert("policy"@.len() == 6);
    assert("memory_window"@.len() == 13 && "memory_window"@[0] == 'm');
    assert("schedule_mins"@.len() == 13 && "schedule_mins"@[0] == 's');
    assert("max_turns"@.len() == 9 && "max_turns"@[0] == 'm');
    assert("task_hint"@.len() == 9 && "task_hint"@[0] == 't');
    text_facts::law_numeral_reads_back(n as nat, u64::MAX as nat);
    text_facts::law_numeral_reads_back(size as nat, usize::MAX as nat);
}

/// A comment is no part of a value: the value is what stands before it.
pub proof fn law_comments_are_left_out(a: Seq<char>, v: Seq<char>, b: Seq<char>, comment: Seq<char>)
    requires
        text::blank(a) && text::blank(b) && text_facts::tight(v),
        text_facts::free_of(v, '#'),
    ensures
        field_value(a + v + b + seq!['#'] + comment) == v,
{
    let head = a + v + b;
    let s = head + seq!['#'] + comment;
    text_facts::law_white_space('#');
    assert forall|j: int| 0 <= j < head.len() implies #[trigger] s[j] != '#' by {
        if j < a.len() {
            assert(s[j] == a[j]);
        } else if j < a.len() + v.len() {
            assert(s[j] == v[j - a.len()]);
        } else {
            assert(s[j] == b[j - a.len() - v.len()]);
        }
    }
    assert(s[head.len() as int] == '#');
    text::lemma_first_char_is(s, '#', head.len() as int);
    assert(s.take(head.len() as int) =~= head);
    text_facts::lemma_trim_around(a, v, b);
}

} // verus!
