//! Documents with a front matter block between two fences of three dashes.

use crate::text;
use crate::text_facts;
use vstd::prelude::*;

verus! {

/// A document taken apart.
pub enum Front<'a> {
    /// It does not open with a fence.
    NoOpening,
    /// The front matter has no end.
    NoClosing,
    /// The front matter and what follows its closing fence.
    Parts { front: &'a str, rest: &'a str },
}

/// What a [`Front`] says.
pub enum FrontView {
    NoOpening,
    NoClosing,
    Parts { front: Seq<char>, rest: Seq<char> },
}

impl<'a> View for Front<'a> {
    type V = FrontView;

    open spec fn view(&self) -> FrontView {
        match self {
            Front::NoOpening => FrontView::NoOpening,
            Front::NoClosing => FrontView::NoClosing,
            Front::Parts { front, rest } => FrontView::Parts { front: front@, rest: rest@ },
        }
    }
}

/// What follows the first line.
pub open spec fn after_first_line(s: Seq<char>) -> Seq<char> {
    match text::split_pair(s, '\n') {
        Some((_, rest)) => rest,
        None => Seq::empty(),
    }
}

/// A document taken apart: the front matter stands between the line that opens it and the
/// next line that starts with three dashes; the rest is what follows those dashes.
pub open spec fn parts_of(raw: Seq<char>) -> FrontView {
    let t = text::ltrim(raw);
    if !text::begins_with(t, "---"@) {
        FrontView::NoOpening
    } else {
        let inside = after_first_line(t);
        match text::first_of(inside, "\n---"@) {
            None => FrontView::NoClosing,
            Some(i) => FrontView::Parts { front: inside.take(i), rest: inside.skip(i + 4) },
        }
    }
}

/// Takes a document apart.
pub fn take_apart<'a>(raw: &'a str) -> (r: Front<'a>)
    ensures
        r@ == parts_of(raw@),
{
    proof {
        reveal_strlit("");
        assert(""@ =~= Seq::<char>::empty());
        reveal_strlit("\n---");
    }
    let t = text::trim_start(raw);
    if !text::starts_with(t, "---") {
        return Front::NoOpening;
    }
    let inside = match text::split_once(t, '\n') {
        Some((_, rest)) => rest,
        None => "",
    };
    match text::find(inside, "\n---") {
        None => Front::NoClosing,
        Some(i) => {
            let n = inside.unicode_len();
            assert(i + 4 <= n);
            Front::Parts { front: text::take(inside, i), rest: text::skip(inside, i + 4) }
        },
    }
}

/// A value without white space and quotes round it.
pub open spec fn unquoted(v: Seq<char>) -> Seq<char> {
    text::trimmed_char(text::trimmed_char(text::trimmed(v), '"'), '\'')
}

/// The value of the last line that starts with `prefix`.
pub open spec fn last_value(lines: Seq<Seq<char>>, prefix: Seq<char>) -> Option<Seq<char>>
    decreases lines.len(),
{
    if lines.len() == 0 {
        None
    } else {
        match text::after_prefix(lines.last(), prefix) {
            Some(v) => Some(unquoted(v)),
            None => last_value(lines.drop_last(), prefix),
        }
    }
}

/// The value of a front matter field.
pub open spec fn field(front: Seq<char>, prefix: Seq<char>) -> Option<Seq<char>> {
    last_value(text::lines_of(front), prefix)
}

/// The value of the last line of the front matter that starts with `prefix`, without
/// white space and quotes round it.
pub fn get_field(front: &str, prefix: &str) -> (r: Option<String>)
    ensures
        text::option_view(r) == field(front@, prefix@),
{
    let lines = text::lines(front);
    let ghost all = text::views(lines@);
    let mut i: usize = lines.len();
    assert(all.take(i as int) =~= all);
    while i > 0
        invariant
            i <= lines.len(),
            all == text::views(lines@),
            all == text::lines_of(front@),
            last_value(all, prefix@) == last_value(all.take(i as int), prefix@),
        decreases i,
    {
        assert(all.take(i as int).drop_last() =~= all.take(i - 1));
        assert(all.take(i as int).last() == lines[i - 1]@);
        if let Some(v) = text::strip_prefix(lines[i - 1].as_str(), prefix) {
            let t = text::trim_char(text::trim_char(text::trim(v), '"'), '\'');
            return Some(t.to_string());
        }
        i -= 1;
    }
    None
}

/// A document whose front matter is closed is the line that opens it, the front matter, the
/// closing dashes and the rest, with nothing left out and nothing added.
pub proof fn law_document_is_its_parts(raw: Seq<char>)
    ensures
        parts_of(raw) matches FrontView::Parts { front, rest } ==> exists|head: Seq<char>|
            raw == #[trigger] (head + front + "\n---"@ + rest),
        parts_of(raw) is NoOpening <==> !text::begins_with(text::ltrim(raw), "---"@),
{
    reveal_strlit("\n---");
    let t = text::ltrim(raw);
    text::lemma_ltrim(raw);
    if let FrontView::Parts { front, rest } = parts_of(raw) {
        let inside = after_first_line(t);
        let i = text::first_of(inside, "\n---"@)->0;
        text_facts::lemma_find(inside, "\n---"@, 0);
        text::lemma_first_char(t, '\n');
        let skipped = match text::first_char(t, '\n') {
            Some(n) => n + 1,
            None => t.len() as int,
        };
        let head = raw.take(raw.len() - inside.len());
        assert(inside =~= t.skip(skipped));
        assert(raw =~= head + inside);
        assert(inside =~= front + "\n---"@ + rest);
        assert(raw =~= head + front + "\n---"@ + rest);
    }
}

/// The front matter ends at the first line that starts with three dashes: a document that is
/// put together so comes apart again.
pub proof fn law_document_comes_apart(front: Seq<char>, rest: Seq<char>)
    requires
        text_facts::first_after(front, "\n---"@, rest),
    ensures
        parts_of("---\n"@ + (front + "\n---"@ + rest)) == (FrontView::Parts { front, rest }),
{
    reveal_strlit("---");
    reveal_strlit("---\n");
    reveal_strlit("\n---");
    let inside = front + "\n---"@ + rest;
    let raw = "---\n"@ + inside;
    assert(raw[0] == '-' && raw[1] == '-' && raw[2] == '-' && raw[3] == '\n');
    assert(text::ltrim(raw) == raw);
    assert(raw.subrange(0, 3) =~= "---"@);
    text::lemma_first_char_is(raw, '\n', 3);
    assert(raw.skip(4) =~= inside);
    let n = front.len() as int;
    assert(inside.subrange(n, n + 4) =~= "\n---"@);
    text_facts::lemma_find_is(inside, "\n---"@, 0, n);
    assert(inside.take(n) =~= front);
    assert(inside.skip(n + 4) =~= rest);
}

proof fn lemma_last_value(lines: Seq<Seq<char>>, prefix: Seq<char>, i: int)
    requires
        0 <= i < lines.len(),
        text::begins_with(lines[i], prefix),
        forall|j: int| i < j < lines.len() ==> !text::begins_with(#[trigger] lines[j], prefix),
    ensures
        last_value(lines, prefix) == Some(unquoted(lines[i].skip(prefix.len() as int))),
    decreases lines.len(),
{
    if i < lines.len() - 1 {
        assert(!text::begins_with(lines[lines.len() - 1], prefix));
        let rest = lines.drop_last();
        assert forall|j: int| i < j < rest.len() implies !text::begins_with(
            #[trigger] rest[j],
            prefix,
        ) by {
            assert(rest[j] == lines[j]);
        }
        lemma_last_value(rest, prefix, i);
    }
}

proof fn lemma_no_value(lines: Seq<Seq<char>>, prefix: Seq<char>)
    requires
        forall|j: int| 0 <= j < lines.len() ==> !text::begins_with(#[trigger] lines[j], prefix),
    ensures
        last_value(lines, prefix) is None,
    decreases lines.len(),
{
    if lines.len() > 0 {
        assert(!text::begins_with(lines[lines.len() - 1], prefix));
        let rest = lines.drop_last();
        assert forall|j: int| 0 <= j < rest.len() implies !text::begins_with(
            #[trigger] rest[j],
            prefix,
        ) by {
            assert(rest[j] == lines[j]);
        }
        lemma_no_value(rest, prefix);
    }
}

/// A value that needs no quotes: no white space and no quote at its ends.
pub open spec fn bare(v: Seq<char>) -> bool {
    &&& text_facts::tight(v)
    &&& v.len() > 0 ==> v[0] != '"' && v[0] != '\'' && v.last() != '"' && v.last() != '\''
}

/// A value is taken whole: white space round it does not count, and neither do quotes round
/// it.
pub proof fn law_value_is_taken_whole(v: Seq<char>)
    requires
        bare(v),
    ensures
        unquoted(v) == v,
        unquoted(seq![' '] + v) == v,
        unquoted(seq![' '] + (seq!['"'] + v + seq!['"'])) == v,
        unquoted(seq![' '] + (seq!['\''] + v + seq!['\''])) == v,
{
    let w = seq![' '];
    assert(text::blank(w));
    text_facts::lemma_trim_lead(w, v);
    text_facts::lemma_tight(v);
    assert(text::ltrim_char(v, '"') == v && text::rtrim_char(v, '"') == v);
    assert(text::ltrim_char(v, '\'') == v && text::rtrim_char(v, '\'') == v);
    let q = seq!['"'] + v + seq!['"'];
    text_facts::lemma_trim_lead(w, q);
    text_facts::lemma_tight(q);
    lemma_unquote(v, '"');
    assert(text::trimmed(w + q) == q);
    let r = seq!['\''] + v + seq!['\''];
    text_facts::lemma_trim_lead(w, r);
    text_facts::lemma_tight(r);
    assert(text::ltrim_char(r, '"') == r && text::rtrim_char(r, '"') == r);
    lemma_unquote(v, '\'');
    assert(text::trimmed(w + r) == r);
}

proof fn lemma_unquote(v: Seq<char>, c: char)
    requires
        v.len() > 0 ==> v[0] != c && v.last() != c,
    ensures
        text::trimmed_char(seq![c] + v + seq![c], c) == v,
{
    let q = seq![c] + v + seq![c];
    assert(q.drop_first() =~= v + seq![c]);
    let t = v + seq![c];
    if v.len() > 0 {
        assert(t[0] == v[0]);
        assert(text::ltrim_char(t, c) == t);
        assert(text::ltrim_char(q, c) == t);
        assert(t.drop_last() =~= v);
        assert(text::rtrim_char(v, c) == v);
        assert(text::rtrim_char(t, c) == v);
    } else {
        assert(t =~= seq![c]);
        assert(t.drop_first() =~= v);
        assert(text::ltrim_char(v, c) == v);
        assert(text::ltrim_char(t, c) == v);
        assert(text::ltrim_char(q, c) == text::ltrim_char(t, c));
        assert(text::rtrim_char(v, c) == v);
    }
}

/// A field has the value of its line; of several lines the last counts, and without a line
/// there is no value.
pub proof fn law_field_is_found(lines: Seq<Seq<char>>, prefix: Seq<char>, i: int, v: Seq<char>)
    requires
        lines.len() > 0 && lines.last().len() > 0,
        forall|k: int| 0 <= k < lines.len() ==> text_facts::line_like(#[trigger] lines[k]),
    ensures
        0 <= i < lines.len() && lines[i] == prefix + seq![' '] + v && bare(v) && (forall|j: int|
            i < j < lines.len() ==> !text::begins_with(#[trigger] lines[j], prefix)) ==> field(
            text::joined(lines, "\n"@),
            prefix,
        ) == Some(v),
        (forall|j: int|
            0 <= j < lines.len() ==> !text::begins_with(#[trigger] lines[j], prefix)) ==> field(
            text::joined(lines, "\n"@),
            prefix,
        ) is None,
{
    text_facts::lemma_lines_of_joined(lines);
    if 0 <= i < lines.len() && lines[i] == prefix + seq![' '] + v && bare(v) && (forall|j: int|
        i < j < lines.len() ==> !text::begins_with(#[trigger] lines[j], prefix)) {
        assert(lines[i].subrange(0, prefix.len() as int) =~= prefix);
        lemma_last_value(lines, prefix, i);
        assert(lines[i].skip(prefix.len() as int) =~= seq![' '] + v);
        law_value_is_taken_whole(v);
    }
    if forall|j: int| 0 <= j < lines.len() ==> !text::begins_with(#[trigger] lines[j], prefix) {
        lemma_no_value(lines, prefix);
    }
}

/// The front matter with a name and a description.
pub open spec fn name_and_description(name: Seq<char>, description: Seq<char>) -> Seq<char> {
    "name: "@ + name + "\n"@ + ("description: "@ + description)
}

/// A front matter with a name and a description, closed by three dashes, is read back: both
/// values whole, and what follows the dashes.
pub proof fn law_name_and_description_are_read_back(
    name: Seq<char>,
    description: Seq<char>,
    rest: Seq<char>,
)
    requires
        bare(name) && text_facts::line_like(name),
        bare(description) && text_facts::line_like(description),
    ensures
        ({
            let front = name_and_description(name, description);
            &&& parts_of("---\n"@ + (front + "\n---"@ + rest)) == (FrontView::Parts { front, rest })
            &&& field(front, "name:"@) == Some(name)
            &&& field(front, "description:"@) == Some(description)
        }),
{
    reveal_strlit("name: ");
    reveal_strlit("name:");
    reveal_strlit("description: ");
    reveal_strlit("description:");
    reveal_strlit("\n");
    reveal_strlit("\n---");
    let front = name_and_description(name, description);
    let a = "name: "@ + name;
    let b = "description: "@ + description;
    let lines = seq![a, b];
    assert(lines.drop_last() =~= seq![a]);
    assert(text::joined(lines, "\n"@) =~= front) by {
        assert(text::joined(seq![a], "\n"@) == a);
    }
    assert(text_facts::line_like(a)) by {
        assert forall|i: int| 0 <= i < a.len() implies #[trigger] a[i] != '\n' by {
            if i >= 6 {
                assert(a[i] == name[i - 6]);
            }
        }
        if name.len() > 0 {
            assert(a.last() == name.last());
        }
    }
    assert(text_facts::line_like(b)) by {
        assert forall|i: int| 0 <= i < b.len() implies #[trigger] b[i] != '\n' by {
            if i >= 13 {
                assert(b[i] == description[i - 13]);
            }
        }
        if description.len() > 0 {
            assert(b.last() == description.last());
        }
    }
    assert("name: "@ =~= "name:"@ + seq![' ']);
    assert("description: "@ =~= "description:"@ + seq![' ']);
    assert(a =~= "name:"@ + seq![' '] + name);
    assert(b =~= "description:"@ + seq![' '] + description);
    assert(!text::begins_with(b, "name:"@)) by {
        if text::begins_with(b, "name:"@) {
            assert(b.subrange(0, 5)[0] == b[0]);
        }
    }
    law_field_is_found(lines, "name:"@, 0, name);
    law_field_is_found(lines, "description:"@, 1, description);
    let inside = front + "\n---"@ + rest;
    assert forall|j: int| 0 <= j < front.len() implies !#[trigger] text::occurs_at(
        inside,
        "\n---"@,
        j,
    ) by {
        if text::occurs_at(inside, "\n---"@, j) {
            let cut = inside.subrange(j, j + 4);
            assert(cut[0] == inside[j] && cut[1] == inside[j + 1]);
            assert(inside[j] == '\n' && inside[j + 1] == '-');
            assert(inside[j] == front[j]);
            if j < a.len() {
                assert(front[j] == a[j]);
            } else if j == a.len() {
                assert(inside[j + 1] == b[0]);
            } else {
                assert(front[j] == b[j - a.len() - 1]);
            }
        }
    }
    law_document_comes_apart(front, rest);
}

} // verus!
