//! The conversation as lines on a screen.

use crate::session;
use crate::session::{Message, MessageView, Role};
use crate::text;
use crate::text_facts;
use vstd::prelude::*;

verus! {

/// How a piece of text looks.
#[derive(Clone, Copy, Debug, PartialEq, Eq, Structural)]
pub enum Tone {
    /// As it is.
    Plain,
    /// Grey and slanted.
    System,
    /// On a grey ground.
    User,
    /// Grey.
    Frame,
    /// White.
    Code,
    /// Blinking.
    Cursor,
}

/// A piece of a line.
pub struct Span {
    pub text: String,
    pub tone: Tone,
}

/// A line on the screen.
pub struct Line {
    pub spans: Vec<Span>,
}

pub open spec fn span_views(v: Seq<Span>) -> Seq<(Seq<char>, Tone)> {
    v.map_values(|s: Span| (s.text@, s.tone))
}

impl View for Line {
    type V = Seq<(Seq<char>, Tone)>;

    open spec fn view(&self) -> Seq<(Seq<char>, Tone)> {
        span_views(self.spans@)
    }
}

pub open spec fn line_views(v: Seq<Line>) -> Seq<Seq<(Seq<char>, Tone)>> {
    v.map_values(|l: Line| l@)
}

/// A line with one piece.
pub open spec fn one(t: Seq<char>, tone: Tone) -> Seq<(Seq<char>, Tone)> {
    seq![(t, tone)]
}

/// An empty line.
pub open spec fn gap() -> Seq<(Seq<char>, Tone)> {
    Seq::empty()
}

/// Appends a line with one piece.
fn push_one(lines: &mut Vec<Line>, t: String, tone: Tone)
    ensures
        line_views(final(lines)@) == line_views(old(lines)@).push(one(t@, tone)),
{
    let mut spans: Vec<Span> = Vec::new();
    let ghost v = t@;
    spans.push(Span { text: t, tone });
    assert(span_views(spans@) =~= one(v, tone));
    lines.push(Line { spans });
    assert(line_views(lines@) =~= line_views(old(lines)@).push(one(v, tone)));
}

/// Appends an empty line.
fn push_gap(lines: &mut Vec<Line>)
    ensures
        line_views(final(lines)@) == line_views(old(lines)@).push(gap()),
{
    let spans: Vec<Span> = Vec::new();
    assert(span_views(spans@) =~= gap());
    lines.push(Line { spans });
    assert(line_views(lines@) =~= line_views(old(lines)@).push(gap()));
}

/// The line that opens a block of code in the language `lang`.
pub open spec fn opening(lang: Seq<char>) -> Seq<(Seq<char>, Tone)> {
    one(
        if lang.len() == 0 {
            "  ╭─────────────────────────────────────────╮"@
        } else {
            "  ╭─ "@ + lang + " ─"@
        },
        Tone::Frame,
    )
}

/// The line for one line of a message, inside a block of code or not.
pub open spec fn content_line(line: Seq<char>, in_code: bool) -> Seq<(Seq<char>, Tone)> {
    match text::after_prefix(line, "```"@) {
        Some(rest) => if in_code {
            one("  ╰────────────────────────────────────────╯"@, Tone::Frame)
        } else {
            opening(text::trimmed(rest))
        },
        None => if in_code {
            seq![("  │ "@, Tone::Frame), (line, Tone::Code)]
        } else {
            one("  "@ + line, Tone::Plain)
        },
    }
}

/// Whether what follows these lines stands in a block of code: every fence turns it round.
pub open spec fn in_code(lines: Seq<Seq<char>>) -> bool
    decreases lines.len(),
{
    if lines.len() == 0 {
        false
    } else {
        in_code(lines.drop_last()) != text::begins_with(lines.last(), "```"@)
    }
}

/// The lines of a message.
pub open spec fn body_lines(lines: Seq<Seq<char>>) -> Seq<Seq<(Seq<char>, Tone)>>
    decreases lines.len(),
{
    if lines.len() == 0 {
        Seq::empty()
    } else {
        body_lines(lines.drop_last()).push(content_line(lines.last(), in_code(lines.drop_last())))
    }
}

/// A message with its blocks of code framed; one that is still open ends in a bar.
pub open spec fn content_lines(content: Seq<char>) -> Seq<Seq<(Seq<char>, Tone)>> {
    let ls = text::lines_of(content);
    if in_code(ls) {
        body_lines(ls).push(one("  │"@, Tone::Frame))
    } else {
        body_lines(ls)
    }
}

/// Appends the lines of a message, its blocks of code framed.
pub fn render_content(content: &str, lines: &mut Vec<Line>)
    ensures
        line_views(final(lines)@) == line_views(old(lines)@) + content_lines(content@),
{
    let ls = text::lines(content);
    let ghost all = text::views(ls@);
    let ghost before = line_views(lines@);
    let mut inside = false;
    let mut i: usize = 0;
    assert(all.take(0) =~= Seq::<Seq<char>>::empty());
    assert(before + Seq::<Seq<(Seq<char>, Tone)>>::empty() =~= before);
    while i < ls.len()
        invariant
            i <= ls.len(),
            all == text::views(ls@),
            inside == in_code(all.take(i as int)),
            line_views(lines@) == before + body_lines(all.take(i as int)),
        decreases ls.len() - i,
    {
        let line = ls[i].as_str();
        let ghost so_far = line_views(lines@);
        assert(all.take(i + 1).drop_last() =~= all.take(i as int));
        assert(all.take(i + 1).last() == line@);
        match text::strip_prefix(line, "```") {
            Some(rest) => {
                if inside {
                    push_one(
                        lines,
                        "  ╰────────────────────────────────────────╯".to_string(),
                        Tone::Frame,
                    );
                    inside = false;
                } else {
                    let lang = text::trim(rest);
                    let header = if lang.is_empty() {
                        "  ╭─────────────────────────────────────────╮".to_string()
                    } else {
                        let mut h = "  ╭─ ".to_string();
                        h.append(lang);
                        h.append(" ─");
                        h
                    };
                    push_one(lines, header, Tone::Frame);
                    inside = true;
                }
            },
            None => {
                if inside {
                    let mut spans: Vec<Span> = Vec::new();
                    spans.push(Span { text: "  │ ".to_string(), tone: Tone::Frame });
                    spans.push(Span { text: line.to_string(), tone: Tone::Code });
                    assert(span_views(spans@) =~= content_line(line@, true));
                    lines.push(Line { spans });
                    assert(line_views(lines@) =~= so_far.push(content_line(line@, true)));
                } else {
                    push_one(lines, text::cat("  ", line), Tone::Plain);
                }
            },
        }
        i += 1;
        assert(line_views(lines@) =~= before + body_lines(all.take(i as int)));
    }
    assert(all.take(i as int) =~= all);
    if inside {
        push_one(lines, "  │".to_string(), Tone::Frame);
        assert(line_views(lines@) =~= before + content_lines(content@));
    }
}

/// `n` spaces.
pub open spec fn spaces(n: nat) -> Seq<char> {
    Seq::new(n, |i: int| ' ')
}

/// A text filled up with spaces to `width` characters.
pub open spec fn padded(t: Seq<char>, width: nat) -> Seq<char> {
    if t.len() < width {
        t + spaces((width - t.len()) as nat)
    } else {
        t
    }
}

fn pad(t: String, width: usize) -> (r: String)
    ensures
        r@ == padded(t@, width as nat),
{
    let mut out = t;
    let mut n = out.as_str().unicode_len();
    let ghost before = out@;
    assert(out@ =~= before + spaces(0));
    while n < width
        invariant
            before.len() <= n,
            n <= width || n == before.len(),
            out@ == before + spaces((n - before.len()) as nat),
        decreases width - n,
    {
        out.push(' ');
        n += 1;
        assert(out@ =~= before + spaces((n - before.len()) as nat));
    }
    assert(out@ =~= padded(before, width as nat));
    out
}

/// The lines of what the user said: on a ground that fills the width.
pub open spec fn user_lines(lines: Seq<Seq<char>>, width: nat) -> Seq<Seq<(Seq<char>, Tone)>> {
    lines.map_values(|l: Seq<char>| one(padded("  "@ + l, width), Tone::User))
}

/// The lines of a message and the gap after it.
pub open spec fn message_lines(m: MessageView, width: nat) -> Seq<Seq<(Seq<char>, Tone)>> {
    (match m.role {
        Role::System => seq![one("[system] "@ + text::trimmed(m.content), Tone::System)],
        Role::User => user_lines(text::lines_of(m.content), width),
        Role::Assistant => content_lines(m.content),
    }).push(gap())
}

/// The lines of a conversation.
pub open spec fn conversation_lines(ms: Seq<MessageView>, width: nat) -> Seq<
    Seq<(Seq<char>, Tone)>,
>
    decreases ms.len(),
{
    if ms.len() == 0 {
        Seq::empty()
    } else {
        conversation_lines(ms.drop_last(), width) + message_lines(ms.last(), width)
    }
}

/// The lines on the screen: the conversation, and what is just coming in with a cursor
/// below it.
pub open spec fn screen_lines(ms: Seq<MessageView>, streaming: Option<Seq<char>>, width: nat) -> Seq<
    Seq<(Seq<char>, Tone)>,
> {
    match streaming {
        Some(p) => (conversation_lines(ms, width) + content_lines(p)).push(
            one("  ▋"@, Tone::Cursor),
        ),
        None => conversation_lines(ms, width),
    }
}

fn render_user(content: &str, width: usize, lines: &mut Vec<Line>)
    ensures
        line_views(final(lines)@) == line_views(old(lines)@) + user_lines(
            text::lines_of(content@),
            width as nat,
        ),
{
    let ls = text::lines(content);
    let ghost all = user_lines(text::views(ls@), width as nat);
    let ghost before = line_views(lines@);
    let mut i: usize = 0;
    assert(before + all.take(0) =~= before);
    while i < ls.len()
        invariant
            i <= ls.len(),
            all == user_lines(text::views(ls@), width as nat),
            line_views(lines@) == before + all.take(i as int),
        decreases ls.len() - i,
    {
        push_one(lines, pad(text::cat("  ", ls[i].as_str()), width), Tone::User);
        i += 1;
        assert(line_views(lines@) =~= before + all.take(i as int));
    }
    assert(all.take(i as int) =~= all);
}

fn render_message(m: &Message, width: usize, lines: &mut Vec<Line>)
    ensures
        line_views(final(lines)@) == line_views(old(lines)@) + message_lines(m@, width as nat),
{
    let ghost before = line_views(lines@);
    match m.role {
        Role::System => {
            push_one(
                lines,
                text::cat("[system] ", text::trim(m.content.as_str())),
                Tone::System,
            );
        },
        Role::User => {
            render_user(m.content.as_str(), width, lines);
        },
        Role::Assistant => {
            render_content(m.content.as_str(), lines);
        },
    }
    push_gap(lines);
    assert(line_views(lines@) =~= before + message_lines(m@, width as nat));
}

/// The conversation on the screen, seen from its end.
pub struct ChatWidget {
    /// How many lines the view is above the end.
    pub scroll_offset: u16,
}

/// Where a view of `height` lines starts among `total` lines, `offset` lines above the end
/// as far as there are that many.
pub open spec fn view_start(total: int, height: int, offset: int) -> int {
    let most = if total > height {
        total - height
    } else {
        0
    };
    if offset < most {
        most - offset
    } else {
        0
    }
}

/// An offset `n` lines further up, as far as the counter goes.
pub open spec fn raised(offset: u16, n: u16) -> u16 {
    if offset + n > u16::MAX {
        u16::MAX
    } else {
        (offset + n) as u16
    }
}

/// An offset `n` lines further down, as far as the end.
pub open spec fn lowered(offset: u16, n: u16) -> u16 {
    if offset < n {
        0
    } else {
        (offset - n) as u16
    }
}

impl ChatWidget {
    pub fn new() -> (r: Self)
        ensures
            r.scroll_offset == 0,
    {
        ChatWidget { scroll_offset: 0 }
    }

    pub fn scroll_up(&mut self, n: u16)
        ensures
            final(self).scroll_offset == raised(old(self).scroll_offset, n),
    {
        self.scroll_offset = if n > u16::MAX - self.scroll_offset {
            u16::MAX
        } else {
            self.scroll_offset + n
        };
    }

    pub fn scroll_down(&mut self, n: u16)
        ensures
            final(self).scroll_offset == lowered(old(self).scroll_offset, n),
    {
        self.scroll_offset = if self.scroll_offset < n {
            0
        } else {
            self.scroll_offset - n
        };
    }

    pub fn scroll_to_bottom(&mut self)
        ensures
            final(self).scroll_offset == 0,
    {
        self.scroll_offset = 0;
    }

    /// The lines of the conversation and of what is just coming in.
    pub fn lines(&self, messages: &Vec<Message>, streaming: Option<&str>, width: u16) -> (r: Vec<
        Line,
    >)
        ensures
            line_views(r@) == screen_lines(
                session::message_views(messages@),
                match streaming {
                    Some(p) => Some(p@),
                    None => None,
                },
                width as nat,
            ),
    {
        let mut lines: Vec<Line> = Vec::new();
        let ghost all = session::message_views(messages@);
        let mut i: usize = 0;
        assert(all.take(0) =~= Seq::<MessageView>::empty());
        assert(line_views(lines@) =~= Seq::<Seq<(Seq<char>, Tone)>>::empty());
        while i < messages.len()
            invariant
                i <= messages.len(),
                all == session::message_views(messages@),
                line_views(lines@) == conversation_lines(all.take(i as int), width as nat),
            decreases messages.len() - i,
        {
            assert(all.take(i + 1).drop_last() =~= all.take(i as int));
            assert(all.take(i + 1).last() == messages[i as int]@);
            render_message(&messages[i], width as usize, &mut lines);
            i += 1;
        }
        assert(all.take(i as int) =~= all);
        if let Some(p) = streaming {
            render_content(p, &mut lines);
            push_one(&mut lines, "  ▋".to_string(), Tone::Cursor);
        }
        lines
    }

    /// The first line of the view on `total` lines. Lines are counted in sixteen bits.
    pub fn scroll_from_top(&self, total: usize, height: u16) -> (r: u16)
        ensures
            r == view_start(total as int % 0x1_0000, height as int, self.scroll_offset as int),
    {
        let total_lines: u16 = (total % 0x1_0000) as u16;
        let most: u16 = if total_lines > height {
            total_lines - height
        } else {
            0
        };
        if self.scroll_offset < most {
            most - self.scroll_offset
        } else {
            0
        }
    }
}

/// Scrolling down takes back scrolling up, as long as the counter does not run full.
pub proof fn law_scrolling_back(offset: u16, n: u16)
    requires
        offset + n <= u16::MAX,
    ensures
        lowered(raised(offset, n), n) == offset,
{
}

/// At the bottom the last lines are in view, scrolling up never moves the view down, and
/// what fits on the screen is shown from its first line.
pub proof fn law_view(total: int, height: int, offset: u16, n: u16)
    requires
        0 <= total,
        0 <= height,
    ensures
        view_start(total, height, 0) + height >= total,
        0 <= view_start(total, height, raised(offset, n) as int) <= view_start(
            total,
            height,
            offset as int,
        ),
        total <= height ==> view_start(total, height, offset as int) == 0,
{
}

/// Each line of a message is shown on one line.
pub proof fn law_one_line_each(lines: Seq<Seq<char>>)
    ensures
        body_lines(lines).len() == lines.len(),
    decreases lines.len(),
{
    if lines.len() > 0 {
        law_one_line_each(lines.drop_last());
    }
}

/// Every line of a message is shown, the whole of it: outside of a block of code behind a
/// margin, inside of one behind a bar; a fence opens or closes a block.
pub proof fn law_every_line_is_shown(lines: Seq<Seq<char>>, i: int)
    requires
        0 <= i < lines.len(),
    ensures
        ({
            let shown = body_lines(lines)[i];
            let code = in_code(lines.take(i));
            &&& body_lines(lines).len() == lines.len()
            &&& !text::begins_with(lines[i], "```"@) && !code ==> shown == seq![
                ("  "@ + lines[i], Tone::Plain),
            ]
            &&& !text::begins_with(lines[i], "```"@) && code ==> shown == seq![
                ("  │ "@, Tone::Frame),
                (lines[i], Tone::Code),
            ]
            &&& text::begins_with(lines[i], "```"@) ==> shown.len() == 1 && shown[0].1
                == Tone::Frame
            &&& text::begins_with(lines[i], "```"@) && !code && !text::blank(
                lines[i].skip(3),
            ) ==> shown[0].0 == "  ╭─ "@ + text::trimmed(lines[i].skip(3)) + " ─"@
        }),
    decreases lines.len(),
{
    reveal_strlit("```");
    law_one_line_each(lines);
    law_one_line_each(lines.drop_last());
    if i == lines.len() - 1 {
        assert(lines.take(i) =~= lines.drop_last());
        assert(lines.last() == lines[i]);
        text::lemma_trimmed_blank(lines[i].skip(3));
    } else {
        law_every_line_is_shown(lines.drop_last(), i);
        assert(lines.drop_last()[i] == lines[i]);
        assert(lines.drop_last().take(i) =~= lines.take(i));
        assert(body_lines(lines)[i] == body_lines(lines.drop_last())[i]);
    }
}

/// A block of code goes from a fence to the next.
pub proof fn law_fences(lines: Seq<Seq<char>>, line: Seq<char>)
    ensures
        !in_code(Seq::<Seq<char>>::empty()),
        text::begins_with(line, "```"@) ==> in_code(lines.push(line)) == !in_code(lines),
        !text::begins_with(line, "```"@) ==> in_code(lines.push(line)) == in_code(lines),
{
    assert(lines.push(line).drop_last() =~= lines);
}

/// What the user said is shown line by line, each behind a margin and followed by nothing but
/// blanks up to the width.
pub proof fn law_words_of_the_user_are_shown(lines: Seq<Seq<char>>, width: nat, i: int)
    requires
        0 <= i < lines.len(),
    ensures
        ({
            let shown = user_lines(lines, width)[i];
            let t = shown[0].0;
            let n = 2 + lines[i].len();
            &&& user_lines(lines, width).len() == lines.len()
            &&& shown.len() == 1 && shown[0].1 == Tone::User
            &&& t.len() >= n && t.take(n as int) == "  "@ + lines[i]
            &&& forall|j: int| n <= j < t.len() ==> #[trigger] t[j] == ' '
            &&& t.len() == if n < width {
                width
            } else {
                n
            }
        }),
{
    reveal_strlit("  ");
    let t = user_lines(lines, width)[i][0].0;
    assert(t.take(2 + lines[i].len() as int) =~= "  "@ + lines[i]);
}

/// The screen shows the messages one below the other, each with a gap after it, and below them
/// what is just coming in and a cursor.
pub proof fn law_screen(
    ms: Seq<MessageView>,
    m: MessageView,
    partial: Seq<char>,
    width: nat,
)
    ensures
        conversation_lines(Seq::<MessageView>::empty(), width).len() == 0,
        conversation_lines(ms.push(m), width) == conversation_lines(ms, width) + message_lines(
            m,
            width,
        ),
        message_lines(m, width).len() > 0 && message_lines(m, width).last().len() == 0,
        m.role == Role::Assistant ==> message_lines(m, width).drop_last() == content_lines(
            m.content,
        ),
        m.role == Role::User ==> message_lines(m, width).drop_last() == user_lines(
            text::lines_of(m.content),
            width,
        ),
        screen_lines(ms, None, width) == conversation_lines(ms, width),
        screen_lines(ms, Some(partial), width).drop_last() == conversation_lines(ms, width)
            + content_lines(partial),
        content_lines(partial).len() >= text::lines_of(partial).len(),
        content_lines(partial).take(text::lines_of(partial).len() as int) == body_lines(
            text::lines_of(partial),
        ),
{
    assert(ms.push(m).drop_last() =~= ms);
    law_one_line_each(text::lines_of(partial));
    assert(message_lines(m, width).drop_last() =~= match m.role {
        Role::System => seq![one("[system] "@ + text::trimmed(m.content), Tone::System)],
        Role::User => user_lines(text::lines_of(m.content), width),
        Role::Assistant => content_lines(m.content),
    });
    assert(screen_lines(ms, Some(partial), width).drop_last() =~= conversation_lines(ms, width)
        + content_lines(partial));
    assert(content_lines(partial).take(text::lines_of(partial).len() as int) =~= body_lines(
        text::lines_of(partial),
    ));
}

/// The view moves line by line: so many lines above the end as it was scrolled, as far as there
/// are lines.
pub proof fn law_view_moves(total: int, height: int, offset: int)
    requires
        0 <= height <= total,
        0 <= offset <= total - height,
    ensures
        view_start(total, height, offset) + height + offset == total,
{
}

/// The fence that opens a block of code names the language, and every other line of a block
/// closes or fills its frame.
pub proof fn law_language_is_named(lang: Seq<char>, line: Seq<char>)
    requires
        text_facts::tight(lang) && lang.len() > 0,
    ensures
        content_line("```"@ + lang, false).len() == 1,
        text_facts::part_of(lang, content_line("```"@ + lang, false)[0].0),
        content_line("```"@ + lang, true).len() == 1,
        !text::begins_with(line, "```"@) ==> content_line(line, true).last() == (line, Tone::Code),
        !text::begins_with(line, "```"@) ==> content_line(line, false) == seq![
            ("  "@ + line, Tone::Plain),
        ],
{
    reveal_strlit("```");
    let s = "```"@ + lang;
    assert(s.subrange(0, 3) =~= "```"@);
    assert(s.skip(3) =~= lang);
    text_facts::lemma_tight(lang);
    text_facts::lemma_part("  ╭─ "@, lang, " ─"@);
}

} // verus!
