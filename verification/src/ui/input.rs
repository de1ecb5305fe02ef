//! The input field.

use crate::text;
use vstd::prelude::*;

verus! {

/// What stands in the input field, line by line, and what was sent before.
pub struct InputWidget {
    lines: Vec<String>,
    history: Vec<String>,
}

/// What an [`InputWidget`] holds.
#[verifier::ext_equal]
pub struct InputView {
    pub lines: Seq<Seq<char>>,
    pub history: Seq<Seq<char>>,
}

/// The text of the input field.
pub open spec fn input_text(lines: Seq<Seq<char>>) -> Seq<char> {
    text::joined(lines, "\n"@)
}

/// The lines of an empty field: there is always one.
pub open spec fn no_lines() -> Seq<Seq<char>> {
    seq![Seq::<char>::empty()]
}

/// The field after its text was sent: empty, and the text remembered unless it is blank.
pub open spec fn sent(v: InputView) -> InputView {
    InputView {
        lines: no_lines(),
        history: if text::blank(input_text(v.lines)) {
            v.history
        } else {
            v.history.push(input_text(v.lines))
        },
    }
}

impl View for InputWidget {
    type V = InputView;

    closed spec fn view(&self) -> InputView {
        InputView { lines: text::views(self.lines@), history: text::views(self.history@) }
    }
}

fn one_empty_line() -> (r: Vec<String>)
    ensures
        text::views(r@) == no_lines(),
{
    let mut v: Vec<String> = Vec::new();
    v.push(String::new());
    assert(text::views(v@) =~= no_lines());
    v
}

impl InputWidget {
    pub fn new() -> (r: Self)
        ensures
            r@ == (InputView { lines: no_lines(), history: Seq::empty() }),
    {
        let r = InputWidget { lines: one_empty_line(), history: Vec::new() };
        assert(r@.history =~= Seq::<Seq<char>>::empty());
        r
    }

    /// The field was edited and holds these lines now.
    pub fn edited(&mut self, lines: Vec<String>)
        ensures
            final(self)@ == (InputView { lines: text::views(lines@), ..old(self)@ }),
    {
        self.lines = lines;
    }

    /// The number of lines, at least one.
    pub fn line_count(&self) -> (r: usize)
        ensures
            r == if self@.lines.len() == 0 {
                1
            } else {
                self@.lines.len()
            },
    {
        if self.lines.len() == 0 {
            1
        } else {
            self.lines.len()
        }
    }

    /// The text in the field.
    pub fn text(&self) -> (r: String)
        ensures
            r@ == input_text(self@.lines),
    {
        text::join(&self.lines, "\n")
    }

    /// Empties the field and hands its text out; a text that is not blank is remembered.
    pub fn submit(&mut self) -> (r: String)
        ensures
            r@ == input_text(old(self)@.lines),
            final(self)@ == sent(old(self)@),
    {
        let t = self.text();
        if !text::is_blank(t.as_str()) {
            self.history.push(t.clone());
            assert(text::views(self.history@) =~= old(self)@.history.push(t@));
        }
        self.lines = one_empty_line();
        t
    }

    /// Empties the field without remembering its text.
    pub fn clear(&mut self)
        ensures
            final(self)@ == (InputView { lines: no_lines(), ..old(self)@ }),
    {
        self.lines = one_empty_line();
    }

    /// What was sent before, the oldest first.
    pub fn history(&self) -> (r: &Vec<String>)
        ensures
            text::views(r@) == self@.history,
    {
        &self.history
    }
}

/// An empty field holds no text.
pub proof fn law_empty_field()
    ensures
        input_text(no_lines()).len() == 0,
{
}

/// What is sent is remembered as it was typed, behind what was sent before, unless it is blank;
/// nothing that was remembered is lost, and the field is empty again.
pub proof fn law_sent_text_is_remembered(v: InputView)
    ensures
        input_text(sent(v).lines).len() == 0,
        !text::blank(input_text(v.lines)) ==> sent(v).history.len() == v.history.len() + 1
            && sent(v).history.last() == input_text(v.lines) && sent(v).history.drop_last()
            == v.history,
        text::blank(input_text(v.lines)) ==> sent(v).history == v.history,
{
    assert(v.history.push(input_text(v.lines)).drop_last() =~= v.history);
}

/// The lines of the field are all in its text, in order.
pub proof fn law_lines_make_the_text(before: Seq<Seq<char>>, line: Seq<char>)
    ensures
        input_text(seq![line]) == line,
        before.len() > 0 ==> input_text(before.push(line)) == input_text(before) + "\n"@ + line,
{
    assert(before.push(line).drop_last() =~= before);
}

} // verus!
