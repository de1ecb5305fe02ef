//! Agent documents as HTML.

use crate::dashboard::definition;
use crate::text;
use crate::text_facts;
use vstd::prelude::*;

verus! {

/// The HTML that `pulldown_cmark` renders for a markdown text, with tables,
/// footnotes, strikethrough and task lists enabled.
pub uninterp spec fn html_of(md: Seq<char>) -> Seq<char>;

/// Renders markdown with `pulldown_cmark::html::push_html` over a
/// `pulldown_cmark::Parser` that has tables, footnotes, strikethrough and task
/// lists enabled. The contract claims that the HTML depends on the text alone.
#[verifier::external_body]
pub(crate) fn md_to_html(src: &str) -> (r: String)
    ensures
        r@ == html_of(src@),
{
    let mut options = pulldown_cmark::Options::empty();
    options.insert(pulldown_cmark::Options::ENABLE_TABLES);
    options.insert(pulldown_cmark::Options::ENABLE_FOOTNOTES);
    options.insert(pulldown_cmark::Options::ENABLE_STRIKETHROUGH);
    options.insert(pulldown_cmark::Options::ENABLE_TASKLISTS);
    let parser = pulldown_cmark::Parser::new_ext(src, options);
    let mut out = String::new();
    pulldown_cmark::html::push_html(&mut out, parser);
    out
}

/// What the front matter shows above the body, while it is read.
#[verifier::ext_equal]
pub struct MetaView {
    pub meta: Seq<char>,
    pub tools: Seq<Seq<char>>,
    pub schedule: Seq<char>,
    pub task: Seq<char>,
    pub task_hint: Seq<char>,
    pub in_tools: bool,
}

pub open spec fn no_meta() -> MetaView {
    MetaView {
        meta: Seq::empty(),
        tools: Seq::empty(),
        schedule: Seq::empty(),
        task: Seq::empty(),
        task_hint: Seq::empty(),
        in_tools: false,
    }
}

/// A badge with a label before its value.
pub open spec fn badge(label: Seq<char>, v: Seq<char>) -> Seq<char> {
    "<span class=\"meta-badge\">"@ + label + v + "</span> "@
}

pub open spec fn name_span(v: Seq<char>) -> Seq<char> {
    "<span class=\"meta-name\">"@ + v + "</span> "@
}

/// The field `k` has the value `v`.
pub open spec fn show_field(st: MetaView, k: Seq<char>, v: Seq<char>) -> MetaView {
    if k == "name"@ && v.len() > 0 {
        MetaView { meta: st.meta + name_span(v), ..st }
    } else if (k == "model"@ || k == "policy"@) && v.len() > 0 {
        MetaView { meta: st.meta + badge(Seq::empty(), v), ..st }
    } else if k == "tools"@ && v.len() == 0 {
        MetaView { in_tools: true, ..st }
    } else if k == "tools"@ && definition::bracketed(v) {
        MetaView { tools: definition::bracket_items(v), ..st }
    } else if k == "memory_window"@ && v.len() > 0 {
        MetaView { meta: st.meta + badge("mem: "@, v), ..st }
    } else if k == "max_turns"@ && v.len() > 0 {
        MetaView { meta: st.meta + badge("turns: "@, v), ..st }
    } else if k == "schedule_mins"@ && text::u64_in(v) is Some {
        MetaView { schedule: text::decimal(text::u64_in(v)->0 as nat) + "m"@, ..st }
    } else if k == "task"@ && v.len() > 0 && v != "|"@ {
        MetaView { task: v, ..st }
    } else if k == "task_hint"@ && v.len() > 0 {
        MetaView { task_hint: v, ..st }
    } else {
        st
    }
}

/// A line that is no item of an open tool list.
pub open spec fn show_plain(st: MetaView, t: Seq<char>) -> MetaView {
    if t.len() == 0 || text::heads(t, '#') {
        st
    } else {
        match text::split_pair(t, ':') {
            Some((k, v)) => show_field(st, text::trimmed(k), definition::field_value(v)),
            None => st,
        }
    }
}

/// One line of the front matter.
pub open spec fn show_line(st: MetaView, line: Seq<char>) -> MetaView {
    let t = text::trimmed(line);
    if st.in_tools && text::heads(t, '#') {
        st
    } else if st.in_tools && text::begins_with(t, "- "@) {
        MetaView { tools: st.tools.push(text::trimmed(t.skip(2))), ..st }
    } else {
        show_plain(MetaView { in_tools: false, ..st }, t)
    }
}

/// The lines of the front matter in order.
pub open spec fn show_lines(st: MetaView, lines: Seq<Seq<char>>) -> MetaView
    decreases lines.len(),
{
    if lines.len() == 0 {
        st
    } else {
        show_line(show_lines(st, lines.drop_last()), lines.last())
    }
}

/// A badge where there is something to show.
pub open spec fn badge_unless_empty(label: Seq<char>, v: Seq<char>) -> Seq<char> {
    if v.len() > 0 {
        badge(label, v)
    } else {
        Seq::empty()
    }
}

/// Everything that is shown above the body: what the lines gave in their order,
/// then tools, schedule, task and hint.
pub open spec fn meta_html(st: MetaView) -> Seq<char> {
    st.meta + (if st.tools.len() > 0 {
        badge("tools: "@, text::joined(st.tools, ", "@))
    } else {
        Seq::empty()
    }) + badge_unless_empty("⏲ "@, st.schedule) + badge_unless_empty("task: "@, st.task)
        + badge_unless_empty("hint: "@, st.task_hint)
}

/// The parts of the page of a document: what stands above the body, if the
/// document has front matter, and the body in markdown. Nothing for a blank one.
pub open spec fn page_source(md: Seq<char>) -> Option<(Option<Seq<char>>, Seq<char>)> {
    if text::trimmed(md).len() == 0 {
        None
    } else {
        let (front, body) = definition::document(md);
        match front {
            Some(f) => Some((Some(meta_html(show_lines(no_meta(), text::lines_of(f)))), body)),
            None => Some((None, body)),
        }
    }
}

/// The page for the rendered body.
pub open spec fn page(meta: Option<Seq<char>>, body_html: Seq<char>) -> Seq<char> {
    match meta {
        Some(m) => "<div class=\"agent-meta\">"@ + m + "</div>\n<div class=\"md-body\">"@
            + body_html + "</div>"@,
        None => "<div class=\"md-body\">"@ + body_html + "</div>"@,
    }
}

/// The page of a document.
pub open spec fn rendered(md: Seq<char>) -> Seq<char> {
    match page_source(md) {
        None => "<div class=\"muted placeholder\">No content</div>"@,
        Some((meta, body)) => page(meta, html_of(body)),
    }
}

/// What the front matter shows above the body, while it is read.
struct Meta {
    meta: String,
    tools: Vec<String>,
    schedule: String,
    task: String,
    task_hint: String,
    in_tools: bool,
}

fn append_badge(out: &mut String, label: &str, v: &str)
    ensures
        final(out)@ == old(out)@ + badge(label@, v@),
{
    out.append("<span class=\"meta-badge\">");
    out.append(label);
    out.append(v);
    out.append("</span> ");
    assert(out@ =~= old(out)@ + badge(label@, v@));
}

fn append_badge_unless_empty(out: &mut String, label: &str, v: &str)
    ensures
        final(out)@ == old(out)@ + badge_unless_empty(label@, v@),
{
    if !v.is_empty() {
        append_badge(out, label, v);
    } else {
        assert(out@ =~= out@ + Seq::<char>::empty());
    }
}

impl Meta {
    spec fn state(&self) -> MetaView {
        MetaView {
            meta: self.meta@,
            tools: text::views(self.tools@),
            schedule: self.schedule@,
            task: self.task@,
            task_hint: self.task_hint@,
            in_tools: self.in_tools,
        }
    }

    fn new() -> (r: Meta)
        ensures
            r.state() == no_meta(),
    {
        let r = Meta {
            meta: String::new(),
            tools: Vec::new(),
            schedule: String::new(),
            task: String::new(),
            task_hint: String::new(),
            in_tools: false,
        };
        assert(r.state() =~= no_meta());
        r
    }

    fn field(&mut self, k: &str, v: &str)
        ensures
            final(self).state() == show_field(old(self).state(), k@, v@),
    {
        proof {
            reveal_strlit("");
            assert(""@ =~= Seq::<char>::empty());
        }
        if text::same(k, "name") && !v.is_empty() {
            let ghost before = self.meta@;
            self.meta.append("<span class=\"meta-name\">");
            self.meta.append(v);
            self.meta.append("</span> ");
            assert(self.meta@ =~= before + name_span(v@));
        } else if (text::same(k, "model") || text::same(k, "policy")) && !v.is_empty() {
            append_badge(&mut self.meta, "", v);
        } else if text::same(k, "tools") && v.is_empty() {
            self.in_tools = true;
        } else if text::same(k, "tools") && text::starts_with_char(v, '[')
            && text::ends_with_char(v, ']') {
            self.tools = definition::read_brackets(v);
        } else if text::same(k, "memory_window") && !v.is_empty() {
            append_badge(&mut self.meta, "mem: ", v);
        } else if text::same(k, "max_turns") && !v.is_empty() {
            append_badge(&mut self.meta, "turns: ", v);
        } else if text::same(k, "schedule_mins") {
            if let Some(n) = text::parse_u64(v) {
                self.schedule = text::cat(text::to_decimal(n).as_str(), "m");
            } else {
                proof {
                    reveal_strlit("schedule_mins");
                    reveal_strlit("task");
                    reveal_strlit("task_hint");
                    assert("schedule_mins"@.len() == 13);
                    assert("task"@.len() == 4);
                    assert("task_hint"@.len() == 9);
                }
            }
        } else if text::same(k, "task") && !v.is_empty() && !text::same(v, "|") {
            self.task = v.to_string();
        } else if text::same(k, "task_hint") && !v.is_empty() {
            self.task_hint = v.to_string();
        }
    }

    fn line(&mut self, line: &str)
        ensures
            final(self).state() == show_line(old(self).state(), line@),
    {
        proof {
            reveal_strlit("- ");
        }
        let t = text::trim(line);
        if self.in_tools {
            if text::starts_with_char(t, '#') {
                return;
            }
            if text::starts_with(t, "- ") {
                self.tools.push(text::trim(text::skip(t, 2)).to_string());
                assert(text::views(self.tools@) =~= old(self).state().tools.push(
                    text::trimmed(t@.skip(2)),
                ));
                return;
            }
            self.in_tools = false;
        }
        assert(self.state() =~= MetaView { in_tools: false, ..old(self).state() });
        if t.is_empty() || text::starts_with_char(t, '#') {
            return;
        }
        if let Some((key, val)) = text::split_once(t, ':') {
            let v = text::trim(text::cut_at(val, '#'));
            self.field(text::trim(key), v);
        }
    }

    fn html(self) -> (r: String)
        ensures
            r@ == meta_html(self.state()),
    {
        let mut out = self.meta;
        if self.tools.len() > 0 {
            append_badge(&mut out, "tools: ", text::join(&self.tools, ", ").as_str());
        } else {
            assert(out@ =~= out@ + Seq::<char>::empty());
        }
        append_badge_unless_empty(&mut out, "⏲ ", self.schedule.as_str());
        append_badge_unless_empty(&mut out, "task: ", self.task.as_str());
        append_badge_unless_empty(&mut out, "hint: ", self.task_hint.as_str());
        out
    }
}

/// Takes a document apart into what is shown above the body and the body.
pub fn agent_page_source(md: &str) -> (r: Option<(Option<String>, String)>)
    ensures
        page_source(md@) == match r {
            Some((meta, body)) => Some((text::option_view(meta), body@)),
            None => None,
        },
{
    if text::trim(md).is_empty() {
        return None;
    }
    let (front, body) = definition::split_document(md);
    match front {
        None => Some((None, body.to_string())),
        Some(f) => {
            let lines = text::lines(f);
            let mut st = Meta::new();
            let mut i: usize = 0;
            assert(text::views(lines@).take(0) =~= Seq::<Seq<char>>::empty());
            while i < lines.len()
                invariant
                    i <= lines.len(),
                    st.state() == show_lines(no_meta(), text::views(lines@).take(i as int)),
                decreases lines.len() - i,
            {
                proof {
                    let p = text::views(lines@).take(i + 1);
                    assert(p.drop_last() =~= text::views(lines@).take(i as int));
                    assert(p.last() == lines[i as int]@);
                }
                st.line(lines[i].as_str());
                i += 1;
            }
            assert(text::views(lines@).take(i as int) =~= text::views(lines@));
            Some((Some(st.html()), body.to_string()))
        },
    }
}

/// Puts the page together from what is shown above the body and the rendered body.
pub fn agent_page(meta: &Option<String>, body_html: &str) -> (r: String)
    ensures
        r@ == page(text::option_view(*meta), body_html@),
{
    match meta {
        Some(m) => {
            let mut out = "<div class=\"agent-meta\">".to_string();
            out.append(m.as_str());
            out.append("</div>\n<div class=\"md-body\">");
            out.append(body_html);
            out.append("</div>");
            out
        },
        None => {
            let mut out = "<div class=\"md-body\">".to_string();
            out.append(body_html);
            out.append("</div>");
            out
        },
    }
}

/// Renders the document of an agent definition: what its front matter says as a
/// row of badges, then the body.
pub fn render_agent_md(md: &str) -> (r: String)
    ensures
        r@ == rendered(md@),
{
    match agent_page_source(md) {
        None => "<div class=\"muted placeholder\">No content</div>".to_string(),
        Some((meta, body)) => {
            let html = md_to_html(body.as_str());
            agent_page(&meta, html.as_str())
        },
    }
}

/// The whole body of a document is rendered and shown, and so is all that stands above it; a
/// blank document has a page of its own.
pub proof fn law_body_is_shown(md: Seq<char>)
    ensures
        !text::blank(md) ==> text_facts::part_of(html_of(definition::document(md).1), rendered(md)),
        !text::blank(md) && definition::document(md).0 is Some ==> text_facts::part_of(
            meta_html(show_lines(no_meta(), text::lines_of(definition::document(md).0->0))),
            rendered(md),
        ),
        text::blank(md) ==> rendered(md) == "<div class=\"muted placeholder\">No content</div>"@,
{
    text::lemma_trimmed_blank(md);
    let body = html_of(definition::document(md).1);
    match definition::document(md).0 {
        Some(f) => {
            let m = meta_html(show_lines(no_meta(), text::lines_of(f)));
            let a = "<div class=\"agent-meta\">"@;
            let b = "</div>\n<div class=\"md-body\">"@;
            text_facts::lemma_part(a, m, b);
            text_facts::lemma_part_grows(m, a + m + b, body);
            text_facts::lemma_part_grows(m, a + m + b + body, "</div>"@);
            text_facts::lemma_part(a + m + b, body, "</div>"@);
        },
        None => {
            text_facts::lemma_part("<div class=\"md-body\">"@, body, "</div>"@);
        },
    }
}

/// Everything that was read is shown above the body.
pub proof fn law_everything_read_is_shown(st: MetaView)
    ensures
        text::begins_with(meta_html(st), st.meta),
        st.tools.len() > 0 ==> text_facts::part_of(
            text::joined(st.tools, ", "@),
            meta_html(st),
        ),
        st.schedule.len() > 0 ==> text_facts::part_of(st.schedule, meta_html(st)),
        st.task.len() > 0 ==> text_facts::part_of(st.task, meta_html(st)),
        st.task_hint.len() > 0 ==> text_facts::part_of(st.task_hint, meta_html(st)),
{
    let tools = if st.tools.len() > 0 {
        badge("tools: "@, text::joined(st.tools, ", "@))
    } else {
        Seq::empty()
    };
    let schedule = badge_unless_empty("⏲ "@, st.schedule);
    let task = badge_unless_empty("task: "@, st.task);
    let hint = badge_unless_empty("hint: "@, st.task_hint);
    let one = st.meta + tools;
    let two = one + schedule;
    let three = two + task;
    let all = three + hint;
    assert(all == meta_html(st));
    assert(all.subrange(0, st.meta.len() as int) =~= st.meta);
    if st.tools.len() > 0 {
        let t = text::joined(st.tools, ", "@);
        lemma_badge(one, st.meta, "tools: "@, t);
        text_facts::lemma_part_grows(t, one, schedule);
        text_facts::lemma_part_grows(t, two, task);
        text_facts::lemma_part_grows(t, three, hint);
    }
    if st.schedule.len() > 0 {
        lemma_badge(two, one, "⏲ "@, st.schedule);
        text_facts::lemma_part_grows(st.schedule, two, task);
        text_facts::lemma_part_grows(st.schedule, three, hint);
    }
    if st.task.len() > 0 {
        lemma_badge(three, two, "task: "@, st.task);
        text_facts::lemma_part_grows(st.task, three, hint);
    }
    if st.task_hint.len() > 0 {
        lemma_badge(all, three, "hint: "@, st.task_hint);
    }
}

proof fn lemma_badge(s: Seq<char>, before: Seq<char>, label: Seq<char>, v: Seq<char>)
    requires
        s == before + badge(label, v),
    ensures
        text_facts::part_of(v, s),
{
    let open = "<span class=\"meta-badge\">"@;
    let close = "</span> "@;
    text_facts::lemma_part(open + label, v, close);
    text_facts::lemma_part_end(before, badge(label, v));
    text_facts::lemma_part_of_part(v, badge(label, v), before, Seq::empty());
    assert(before + badge(label, v) + Seq::<char>::empty() =~= s);
}

/// What a field says is shown whole, behind what the fields before it said.
pub proof fn law_fields_are_shown(st: MetaView, v: Seq<char>, n: u64)
    requires
        v.len() > 0,
    ensures
        show_field(st, "name"@, v).meta == st.meta + ("<span class=\"meta-name\">"@ + v
            + "</span> "@),
        show_field(st, "model"@, v).meta == st.meta + badge(Seq::empty(), v),
        show_field(st, "policy"@, v).meta == st.meta + badge(Seq::empty(), v),
        show_field(st, "memory_window"@, v).meta == st.meta + badge("mem: "@, v),
        show_field(st, "max_turns"@, v).meta == st.meta + badge("turns: "@, v),
        show_field(st, "schedule_mins"@, text::decimal(n as nat)).schedule == text::decimal(
            n as nat,
        ) + "m"@,
        v != "|"@ ==> show_field(st, "task"@, v).task == v,
        show_field(st, "task_hint"@, v).task_hint == v,
        st.in_tools && !text::blank(v) ==> show_line(st, "- "@ + v).tools == st.tools.push(
            text::trimmed(v),
        ),
{
    reveal_strlit("name");
    reveal_strlit("model");
    reveal_strlit("policy");
    reveal_strlit("tools");
    reveal_strlit("memory_window");
    reveal_strlit("max_turns");
    reveal_strlit("schedule_mins");
    reveal_strlit("task");
    reveal_strlit("task_hint");
    assert("name"@.len() == 4 && "name"@[0] == 'n' && "task"@.len() == 4 && "task"@[0] == 't');
    assert("model"@.len() == 5 && "model"@[0] == 'm' && "tools"@.len() == 5 && "tools"@[0] == 't');
    assert("policy"@.len() == 6);
    assert("memory_window"@.len() == 13 && "memory_window"@[0] == 'm');
    assert("schedule_mins"@.len() == 13 && "schedule_mins"@[0] == 's');
    assert("max_turns"@.len() == 9 && "max_turns"@[0] == 'm');
    assert("task_hint"@.len() == 9 && "task_hint"@[0] == 't');
    text_facts::law_numeral_reads_back(n as nat, u64::MAX as nat);
    if st.in_tools {
        lemma_item(v);
    }
}

/// An item of a list is what stands behind its dash.
proof fn lemma_item(v: Seq<char>)
    ensures
        ({
            let t = text::trimmed("- "@ + v);
            &&& !text::heads(t, '#')
            &&& !text::blank(v) ==> text::begins_with(t, "- "@) && text::trimmed(t.skip(2))
                == text::trimmed(v)
        }),
{
    reveal_strlit("- ");
    let s = "- "@ + v;
    assert(s[0] == '-');
    text_facts::law_white_space('-');
    assert(!text::white('-'));
    assert(text::ltrim(s) == s);
    let a = "- "@;
    lemma_behind(a, v);
    let t = text::trimmed(s);
    assert(t == text::rtrim(s));
    if !text::blank(v) {
        assert(t == a + text::rtrim(v));
        assert(t.subrange(0, 2) =~= a);
        assert(t.skip(2) =~= text::rtrim(v));
    }
}

proof fn lemma_behind(a: Seq<char>, v: Seq<char>)
    requires
        a.len() == 2 && a[0] == '-',
        !text::white('-'),
    ensures
        text::rtrim(a + v).len() > 0 && text::rtrim(a + v)[0] == '-',
        !text::blank(v) ==> text::rtrim(a + v) == a + text::rtrim(v),
        !text::blank(v) ==> text::trimmed(text::rtrim(v)) == text::trimmed(v),
    decreases v.len(),
{
    let s = a + v;
    if v.len() == 0 {
        assert(s =~= a);
        if text::white(a[1]) {
            let d = a.drop_last();
            assert(d.len() == 1 && d.last() == '-' && d[0] == '-');
            assert(text::rtrim(d) == d);
            assert(text::rtrim(a) == d);
        } else {
            assert(a.last() == a[1]);
            assert(text::rtrim(a) == a);
        }
    } else {
        let u = v.drop_last();
        assert(s.last() == v.last());
        assert(s.drop_last() =~= a + u);
        if text::white(v.last()) {
            lemma_behind(a, u);
            if !text::blank(v) {
                assert(!text::blank(u)) by {
                    if text::blank(u) {
                        assert forall|i: int| 0 <= i < v.len() implies text::white(
                            #[trigger] v[i],
                        ) by {
                            if i < u.len() {
                                assert(u[i] == v[i]);
                            }
                        }
                    }
                }
                let w = v.skip(u.len() as int);
                assert(v =~= u + w);
                assert(text::blank(w)) by {
                    assert(w[0] == v.last());
                }
                lemma_trimmed_trail(u, w);
            }
        } else {
            assert(text::rtrim(v) == v);
            assert(text::rtrim(s) == s && s[0] == '-');
        }
    }
}

proof fn lemma_trimmed_trail(u: Seq<char>, w: Seq<char>)
    requires
        text::blank(w),
    ensures
        text::trimmed(u + w) == text::trimmed(u),
    decreases u.len(),
{
    if u.len() > 0 && text::white(u[0]) {
        assert((u + w)[0] == u[0]);
        assert((u + w).drop_first() =~= u.drop_first() + w);
        lemma_trimmed_trail(u.drop_first(), w);
    } else if u.len() > 0 {
        assert((u + w)[0] == u[0]);
        text_facts::lemma_rtrim_trail(u, w);
    } else {
        assert(u + w =~= w);
        text::lemma_trimmed_blank(w);
        text::lemma_trimmed_blank(u);
        assert(text::trimmed(u) =~= text::trimmed(w));
    }
}

/// No line takes away what an earlier line showed.
pub proof fn law_nothing_shown_is_lost(st: MetaView, line: Seq<char>)
    ensures
        text::begins_with(show_line(st, line).meta, st.meta),
        text::blank(line) ==> show_line(st, line).meta == st.meta && show_line(st, line).tools
            == st.tools && show_line(st, line).schedule == st.schedule && show_line(st, line).task
            == st.task && show_line(st, line).task_hint == st.task_hint,
{
    let r = show_line(st, line).meta;
    assert(st.meta.subrange(0, st.meta.len() as int) =~= st.meta);
    assert(r.subrange(0, st.meta.len() as int) =~= st.meta);
    if text::blank(line) {
        text::lemma_trimmed_blank(line);
        reveal_strlit("- ");
    }
}

} // verus!
