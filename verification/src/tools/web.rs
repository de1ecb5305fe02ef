//! Web search.

use crate::text;
use crate::text_facts;
use vstd::prelude::*;

verus! {

/// Searches the web.
pub struct WebSearchTool;

/// `s` ends inside a tag.
pub open spec fn in_tag(s: Seq<char>) -> bool
    decreases s.len(),
{
    if s.len() == 0 {
        false
    } else if s.last() == '<' {
        true
    } else if s.last() == '>' {
        false
    } else {
        in_tag(s.drop_last())
    }
}

/// `s` without its tags.
pub open spec fn untagged(s: Seq<char>) -> Seq<char>
    decreases s.len(),
{
    if s.len() == 0 {
        Seq::empty()
    } else if s.last() == '<' || s.last() == '>' || in_tag(s.drop_last()) {
        untagged(s.drop_last())
    } else {
        untagged(s.drop_last()).push(s.last())
    }
}

/// `s` with the common entities replaced by what they stand for, one after the other.
pub open spec fn unescaped(s: Seq<char>) -> Seq<char> {
    let a = text::replaced(s, "&amp;"@, "&"@);
    let b = text::replaced(a, "&lt;"@, "<"@);
    let c = text::replaced(b, "&gt;"@, ">"@);
    let d = text::replaced(c, "&quot;"@, "\""@);
    let e = text::replaced(d, "&#x27;"@, "'"@);
    text::replaced(e, "&nbsp;"@, " "@)
}

/// The text of a piece of HTML.
pub open spec fn cleaned(s: Seq<char>) -> Seq<char> {
    unescaped(untagged(s))
}

/// What opens a result.
pub open spec fn marker() -> Seq<char> {
    "class=\"result__snippet\""@
}

/// The part of a page that starts with the text of its next result.
pub open spec fn next_result(page: Seq<char>) -> Option<Seq<char>> {
    match text::first_of(page, marker()) {
        None => None,
        Some(i) => {
            let after = page.skip(i + marker().len());
            match text::first_char(after, '>') {
                None => None,
                Some(j) => Some(after.skip(j + 1)),
            }
        },
    }
}

/// The texts of the first `limit` results of a page that are not empty.
pub open spec fn snippets(page: Seq<char>, limit: nat) -> Seq<Seq<char>>
    decreases page.len(),
{
    if limit == 0 {
        Seq::empty()
    } else {
        match next_result(page) {
            None => Seq::empty(),
            Some(rest) => match text::first_of(rest, "</a>"@) {
                None => Seq::empty(),
                Some(end) => if rest.len() < page.len() {
                    let t = cleaned(text::trimmed(rest.take(end)));
                    if t.len() == 0 {
                        snippets(rest, limit)
                    } else {
                        seq![t] + snippets(rest, (limit - 1) as nat)
                    }
                } else {
                    Seq::empty()
                },
            },
        }
    }
}

/// The text of a piece of HTML: without tags, with the common entities replaced.
pub fn html_clean(s: &str) -> (r: String)
    ensures
        r@ == cleaned(s@),
{
    let cs = text::chars_of(s);
    let mut out = String::new();
    let mut inside = false;
    let mut i: usize = 0;
    while i < cs.len()
        invariant
            i <= cs.len(),
            cs@ == s@,
            inside == in_tag(s@.take(i as int)),
            out@ == untagged(s@.take(i as int)),
        decreases cs.len() - i,
    {
        let c = cs[i];
        assert(s@.take(i + 1).drop_last() =~= s@.take(i as int));
        if c == '<' {
            inside = true;
        } else if c == '>' {
            inside = false;
        } else if !inside {
            out.push(c);
        }
        i += 1;
    }
    assert(s@.take(i as int) =~= s@);
    proof {
        reveal_strlit("&amp;");
        reveal_strlit("&lt;");
        reveal_strlit("&gt;");
        reveal_strlit("&quot;");
        reveal_strlit("&#x27;");
        reveal_strlit("&nbsp;");
    }
    let a = text::replace(out.as_str(), "&amp;", "&");
    let b = text::replace(a.as_str(), "&lt;", "<");
    let c = text::replace(b.as_str(), "&gt;", ">");
    let d = text::replace(c.as_str(), "&quot;", "\"");
    let e = text::replace(d.as_str(), "&#x27;", "'");
    text::replace(e.as_str(), "&nbsp;", " ")
}

/// The part of a page that starts with the text of its next result.
fn find_result<'a>(page: &'a str) -> (r: Option<&'a str>)
    ensures
        next_result(page@) == match r {
            Some(rest) => Some(rest@),
            None => None,
        },
        r matches Some(rest) ==> rest@.len() < page@.len(),
{
    proof {
        reveal_strlit("class=\"result__snippet\"");
    }
    match text::find(page, "class=\"result__snippet\"") {
        None => None,
        Some(i) => {
            let n = page.unicode_len();
            assert(i + 23 <= n);
            let after = text::skip(page, i + 23);
            match text::find_char(after, '>') {
                None => None,
                Some(j) => {
                    proof {
                        text::lemma_first_char(after@, '>');
                    }
                    let m = after.unicode_len();
                    Some(text::skip(after, j + 1))
                },
            }
        },
    }
}

/// Extracts the texts of up to `limit` results of a search page.
pub fn extract_snippets(html: &str, limit: usize) -> (r: Vec<String>)
    ensures
        text::views(r@) == snippets(html@, limit as nat),
{
    let mut out: Vec<String> = Vec::new();
    let mut remaining = html;
    assert(text::views(out@) + snippets(remaining@, limit as nat) =~= snippets(
        html@,
        limit as nat,
    ));
    while out.len() < limit
        invariant_except_break
            out.len() <= limit,
            text::views(out@) + snippets(remaining@, (limit - out.len()) as nat) == snippets(
                html@,
                limit as nat,
            ),
        ensures
            text::views(out@) == snippets(html@, limit as nat),
        decreases remaining@.len(),
    {
        let ghost before = text::views(out@);
        assert(before + Seq::<Seq<char>>::empty() =~= before);
        let rest = match find_result(remaining) {
            Some(rest) => rest,
            None => {
                break;
            },
        };
        let end = match text::find(rest, "</a>") {
            Some(end) => end,
            None => {
                break;
            },
        };
        let t = html_clean(text::trim(text::take(rest, end)));
        if !t.as_str().is_empty() {
            out.push(t);
            proof {
                let more = snippets(rest@, (limit - out.len()) as nat);
                assert(text::views(out@) =~= before.push(t@));
                assert(before + (seq![t@] + more) =~= text::views(out@) + more);
            }
        }
        remaining = rest;
        if out.len() == limit {
            assert(text::views(out@) + Seq::<Seq<char>>::empty() =~= text::views(out@));
        }
    }
    out
}

/// The address of the search for `query`.
pub open spec fn search_address(query: Seq<char>) -> Seq<char> {
    "https://html.duckduckgo.com/html/?q="@ + text::replaced(query, " "@, "+"@)
}

/// The address of the search for `query`.
pub fn search_url(query: &str) -> (r: String)
    ensures
        r@ == search_address(query@),
{
    proof {
        reveal_strlit(" ");
    }
    text::cat("https://html.duckduckgo.com/html/?q=", text::replace(query, " ", "+").as_str())
}

/// What a search for `query` answers with the page that it found.
pub open spec fn search_answer(query: Seq<char>, page: Seq<char>) -> Seq<char> {
    let found = snippets(page, 5);
    if found.len() == 0 {
        "No results found for: "@ + query
    } else {
        text::joined(found, "\n"@)
    }
}

/// What a search for `query` answers with the page that it found.
pub fn search_report(query: &str, page: &str) -> (r: String)
    ensures
        r@ == search_answer(query@, page@),
{
    let found = extract_snippets(page, 5);
    if found.len() == 0 {
        text::cat("No results found for: ", query)
    } else {
        text::join(&found, "\n")
    }
}

/// Never more results than asked for, and none of them empty.
pub proof fn law_snippets(page: Seq<char>, limit: nat)
    ensures
        snippets(page, limit).len() <= limit,
        forall|i: int|
            0 <= i < snippets(page, limit).len() ==> (#[trigger] snippets(page, limit)[i]).len()
                > 0,
    decreases page.len(),
{
    if limit > 0 {
        if let Some(rest) = next_result(page) {
            if rest.len() < page.len() {
                law_snippets(rest, limit);
                law_snippets(rest, (limit - 1) as nat);
            }
        }
    }
}

proof fn lemma_untagged(s: Seq<char>)
    ensures
        forall|i: int|
            0 <= i < untagged(s).len() ==> #[trigger] untagged(s)[i] != '<' && untagged(s)[i]
                != '>',
    decreases s.len(),
{
    if s.len() > 0 {
        let before = untagged(s.drop_last());
        lemma_untagged(s.drop_last());
        assert forall|i: int| 0 <= i < untagged(s).len() implies #[trigger] untagged(s)[i] != '<'
            && untagged(s)[i] != '>' by {
            if i < before.len() {
                assert(untagged(s)[i] == before[i]);
            }
        }
    }
}

/// No angle bracket is left once the tags are taken out.
pub proof fn law_untagged(s: Seq<char>)
    ensures
        !untagged(s).contains('<'),
        !untagged(s).contains('>'),
{
    lemma_untagged(s);
}

proof fn lemma_outside(s: Seq<char>, t: Seq<char>)
    requires
        text_facts::free_of(t, '<'),
        text_facts::free_of(t, '>'),
    ensures
        in_tag(s + t) == in_tag(s),
        untagged(s + t) == if in_tag(s) {
            untagged(s)
        } else {
            untagged(s) + t
        },
    decreases t.len(),
{
    if t.len() == 0 {
        assert(s + t =~= s);
        assert(untagged(s) + t =~= untagged(s));
    } else {
        let u = t.drop_last();
        assert forall|i: int| 0 <= i < u.len() implies #[trigger] u[i] != '<' by {
            assert(u[i] == t[i]);
        }
        assert forall|i: int| 0 <= i < u.len() implies #[trigger] u[i] != '>' by {
            assert(u[i] == t[i]);
        }
        lemma_outside(s, u);
        assert((s + t).drop_last() =~= s + u);
        assert((s + t).last() == t[t.len() - 1]);
        assert((untagged(s) + u).push(t.last()) =~= untagged(s) + t);
    }
}

/// A tag is dropped, and all the text before it and behind it is kept.
pub proof fn law_tags_are_dropped(a: Seq<char>, tag: Seq<char>, b: Seq<char>)
    requires
        text_facts::free_of(a, '<') && text_facts::free_of(a, '>'),
        text_facts::free_of(tag, '<') && text_facts::free_of(tag, '>'),
        text_facts::free_of(b, '<') && text_facts::free_of(b, '>'),
    ensures
        untagged(a + seq!['<'] + tag + seq!['>'] + b) == a + b,
        untagged(a) == a,
{
    let e = Seq::<char>::empty();
    lemma_outside(e, a);
    assert(e + a =~= a);
    assert(untagged(e) == e);
    let s1 = a + seq!['<'];
    assert(s1.drop_last() =~= a && s1.last() == '<');
    assert(in_tag(s1) && untagged(s1) == a);
    lemma_outside(s1, tag);
    let s2 = s1 + tag;
    let s3 = s2 + seq!['>'];
    assert(s3.drop_last() =~= s2 && s3.last() == '>');
    assert(!in_tag(s3) && untagged(s3) == a);
    lemma_outside(s3, b);
}

/// Nothing of a text is lost that has neither tags nor entities in it.
pub proof fn law_plain_text_is_kept(s: Seq<char>)
    requires
        text_facts::free_of(s, '<') && text_facts::free_of(s, '>') && text_facts::free_of(s, '&'),
    ensures
        cleaned(s) == s,
{
    law_tags_are_dropped(s, Seq::empty(), Seq::empty());
    lemma_no_entities(s);
}

proof fn lemma_no_entities(s: Seq<char>)
    requires
        text_facts::free_of(s, '&'),
    ensures
        unescaped(s) == s,
{
    reveal_strlit("&amp;");
    reveal_strlit("&lt;");
    reveal_strlit("&gt;");
    reveal_strlit("&quot;");
    reveal_strlit("&#x27;");
    reveal_strlit("&nbsp;");
    lemma_kept(s, "&amp;"@, "&"@);
    lemma_kept(s, "&lt;"@, "<"@);
    lemma_kept(s, "&gt;"@, ">"@);
    lemma_kept(s, "&quot;"@, "\""@);
    lemma_kept(s, "&#x27;"@, "'"@);
    lemma_kept(s, "&nbsp;"@, " "@);
}

proof fn lemma_kept(s: Seq<char>, p: Seq<char>, to: Seq<char>)
    requires
        text_facts::free_of(s, '&'),
        p.len() > 0 && p[0] == '&',
    ensures
        text::replaced(s, p, to) == s,
{
    assert forall|j: int| !#[trigger] text::occurs_at(s, p, j) by {
        if text::occurs_at(s, p, j) {
            assert(s.subrange(j, j + p.len())[0] == s[j]);
        }
    }
    text_facts::law_replaced_once(Seq::empty(), p, Seq::empty(), to, s);
}

/// `s` has its one `&` before the character `c`.
spec fn entity_at(s: Seq<char>, n: int, c: char) -> bool {
    &&& 0 <= n && n + 1 < s.len() && s[n] == '&' && s[n + 1] == c
    &&& forall|j: int| 0 <= j < s.len() && j != n ==> #[trigger] s[j] != '&'
}

proof fn lemma_other_entity(s: Seq<char>, n: int, c: char, p: Seq<char>, to: Seq<char>)
    requires
        entity_at(s, n, c),
        p.len() > 1 && p[0] == '&' && p[1] != c,
    ensures
        text::replaced(s, p, to) == s,
{
    assert forall|j: int| !#[trigger] text::occurs_at(s, p, j) by {
        if text::occurs_at(s, p, j) {
            let cut = s.subrange(j, j + p.len());
            assert(cut[0] == s[j] && cut[1] == s[j + 1]);
        }
    }
    text_facts::law_replaced_once(Seq::empty(), p, Seq::empty(), to, s);
}

proof fn lemma_this_entity(a: Seq<char>, p: Seq<char>, b: Seq<char>, to: Seq<char>)
    requires
        text_facts::free_of(a, '&') && text_facts::free_of(b, '&') && text_facts::free_of(to, '&'),
        p.len() > 1 && p[0] == '&',
        forall|i: int| 0 < i < p.len() ==> #[trigger] p[i] != '&',
    ensures
        entity_at(a + p + b, a.len() as int, p[1]),
        text::replaced(a + p + b, p, to) == a + to + b,
        text_facts::free_of(a + to + b, '&'),
{
    let s = a + p + b;
    let n = a.len() as int;
    assert forall|j: int| 0 <= j < s.len() && j != n implies #[trigger] s[j] != '&' by {
        if j < n {
            assert(s[j] == a[j]);
        } else if j < n + p.len() {
            assert(s[j] == p[j - n]);
        } else {
            assert(s[j] == b[j - n - p.len()]);
        }
    }
    assert(s[n] == p[0] && s[n + 1] == p[1]);
    assert(s.subrange(n, n + p.len()) =~= p);
    assert forall|j: int| #[trigger] text::occurs_at(s, p, j) implies j == n by {
        assert(s.subrange(j, j + p.len())[0] == s[j]);
    }
    text_facts::law_replaced_once(a, p, b, to, s);
    let r = a + to + b;
    assert forall|j: int| 0 <= j < r.len() implies #[trigger] r[j] != '&' by {
        if j < n {
            assert(r[j] == a[j]);
        } else if j < n + to.len() {
            assert(r[j] == to[j - n]);
        } else {
            assert(r[j] == b[j - n - to.len()]);
        }
    }
}

/// An entity stands for its character, and the text round it is kept.
pub proof fn law_entities(a: Seq<char>, b: Seq<char>)
    requires
        text_facts::free_of(a, '&') && text_facts::free_of(b, '&'),
    ensures
        unescaped(a + "&lt;"@ + b) == a + "<"@ + b,
        unescaped(a + "&gt;"@ + b) == a + ">"@ + b,
        unescaped(a + "&quot;"@ + b) == a + "\""@ + b,
        unescaped(a + "&#x27;"@ + b) == a + "'"@ + b,
        unescaped(a + "&nbsp;"@ + b) == a + " "@ + b,
{
    reveal_strlit("&amp;");
    reveal_strlit("&lt;");
    reveal_strlit("&gt;");
    reveal_strlit("&quot;");
    reveal_strlit("&#x27;");
    reveal_strlit("&nbsp;");
    reveal_strlit("<");
    reveal_strlit(">");
    reveal_strlit("\"");
    reveal_strlit("'");
    reveal_strlit(" ");
    let n = a.len() as int;
    assert(unescaped(a + "&lt;"@ + b) == a + "<"@ + b) by {
        let s = a + "&lt;"@ + b;
        let r = a + "<"@ + b;
        lemma_this_entity(a, "&lt;"@, b, "<"@);
        lemma_other_entity(s, n, 'l', "&amp;"@, "&"@);
        lemma_kept(r, "&gt;"@, ">"@);
        lemma_kept(r, "&quot;"@, "\""@);
        lemma_kept(r, "&#x27;"@, "'"@);
        lemma_kept(r, "&nbsp;"@, " "@);
    }
    assert(unescaped(a + "&gt;"@ + b) == a + ">"@ + b) by {
        let s = a + "&gt;"@ + b;
        let r = a + ">"@ + b;
        lemma_this_entity(a, "&gt;"@, b, ">"@);
        lemma_other_entity(s, n, 'g', "&amp;"@, "&"@);
        lemma_other_entity(s, n, 'g', "&lt;"@, "<"@);
        lemma_kept(r, "&quot;"@, "\""@);
        lemma_kept(r, "&#x27;"@, "'"@);
        lemma_kept(r, "&nbsp;"@, " "@);
    }
    assert(unescaped(a + "&quot;"@ + b) == a + "\""@ + b) by {
        let s = a + "&quot;"@ + b;
        let r = a + "\""@ + b;
        lemma_this_entity(a, "&quot;"@, b, "\""@);
        lemma_other_entity(s, n, 'q', "&amp;"@, "&"@);
        lemma_other_entity(s, n, 'q', "&lt;"@, "<"@);
        lemma_other_entity(s, n, 'q', "&gt;"@, ">"@);
        lemma_kept(r, "&#x27;"@, "'"@);
        lemma_kept(r, "&nbsp;"@, " "@);
    }
    assert(unescaped(a + "&#x27;"@ + b) == a + "'"@ + b) by {
        let s = a + "&#x27;"@ + b;
        let r = a + "'"@ + b;
        lemma_this_entity(a, "&#x27;"@, b, "'"@);
        lemma_other_entity(s, n, '#', "&amp;"@, "&"@);
        lemma_other_entity(s, n, '#', "&lt;"@, "<"@);
        lemma_other_entity(s, n, '#', "&gt;"@, ">"@);
        lemma_other_entity(s, n, '#', "&quot;"@, "\""@);
        lemma_kept(r, "&nbsp;"@, " "@);
    }
    assert(unescaped(a + "&nbsp;"@ + b) == a + " "@ + b) by {
        let s = a + "&nbsp;"@ + b;
        lemma_this_entity(a, "&nbsp;"@, b, " "@);
        lemma_other_entity(s, n, 'n', "&amp;"@, "&"@);
        lemma_other_entity(s, n, 'n', "&lt;"@, "<"@);
        lemma_other_entity(s, n, 'n', "&gt;"@, ">"@);
        lemma_other_entity(s, n, 'n', "&quot;"@, "\""@);
        lemma_other_entity(s, n, 'n', "&#x27;"@, "'"@);
    }
}

/// The results of a page are found one after the other: the text of the first, whole and
/// cleaned, and then those of the rest of the page; a page without a result has none.
pub proof fn law_results_are_found(
    before: Seq<char>,
    attributes: Seq<char>,
    body: Seq<char>,
    after: Seq<char>,
    limit: nat,
)
    requires
        limit > 0,
        text_facts::free_of(attributes, '>'),
        text_facts::first_after(
            before,
            "class=\"result__snippet\""@,
            attributes + seq!['>'] + (body + "</a>"@ + after),
        ),
        text_facts::first_after(body, "</a>"@, after),
    ensures
        ({
            let rest = body + "</a>"@ + after;
            let page = before + "class=\"result__snippet\""@ + (attributes + seq!['>'] + rest);
            let t = cleaned(text::trimmed(body));
            snippets(page, limit) == if t.len() == 0 {
                snippets(rest, limit)
            } else {
                seq![t] + snippets(rest, (limit - 1) as nat)
            }
        }),
{
    reveal_strlit("class=\"result__snippet\"");
    reveal_strlit("</a>");
    let m = "class=\"result__snippet\""@;
    let rest = body + "</a>"@ + after;
    let tail = attributes + seq!['>'] + rest;
    let page = before + m + tail;
    let n = before.len() as int;
    assert(page.subrange(n, n + m.len()) =~= m);
    text_facts::lemma_find_is(page, m, 0, n);
    assert(page.skip(n + m.len()) =~= tail);
    let k = attributes.len() as int;
    assert(tail[k] == '>');
    assert forall|j: int| 0 <= j < k implies #[trigger] tail[j] != '>' by {
        assert(tail[j] == attributes[j]);
    }
    text::lemma_first_char_is(tail, '>', k);
    assert(tail.skip(k + 1) =~= rest);
    let e = body.len() as int;
    assert(rest.subrange(e, e + 4) =~= "</a>"@);
    text_facts::lemma_find_is(rest, "</a>"@, 0, e);
    assert(rest.take(e) =~= body);
}

/// A search asks for the whole query, each blank in it written as a plus; and answers with the
/// results on lines of their own, up to five, or says that there are none.
pub proof fn law_search(query: Seq<char>, a: Seq<char>, b: Seq<char>, page: Seq<char>)
    requires
        text_facts::free_of(a, ' '),
    ensures
        text_facts::free_of(query, ' ') ==> search_address(query)
            == "https://html.duckduckgo.com/html/?q="@ + query,
        exists|rest: Seq<char>|
            search_address(b) == #[trigger] ("https://html.duckduckgo.com/html/?q="@ + rest)
                && search_address(a + " "@ + b) == "https://html.duckduckgo.com/html/?q="@ + (a
                + "+"@ + rest),
        snippets(page, 5).len() > 0 ==> search_answer(query, page) == text::joined(
            snippets(page, 5),
            "\n"@,
        ),
        snippets(page, 5).len() == 0 ==> search_answer(query, page) == "No results found for: "@
            + query,
{
    reveal_strlit(" ");
    assert(" "@ =~= seq![' ']);
    if text_facts::free_of(query, ' ') {
        assert forall|j: int| !#[trigger] text::occurs_at(query, " "@, j) by {
            if text::occurs_at(query, " "@, j) {
                assert(query.subrange(j, j + 1)[0] == query[j]);
            }
        }
        text_facts::law_replaced_once(a, " "@, b, "+"@, query);
    }
    let s = a + " "@ + b;
    assert forall|j: int| 0 <= j < a.len() implies !#[trigger] text::occurs_at(s, " "@, j) by {
        if text::occurs_at(s, " "@, j) {
            assert(s.subrange(j, j + 1)[0] == s[j]);
            assert(s[j] == a[j]);
        }
    }
    text_facts::law_replaced_step(a, " "@, b, "+"@);
    let rest = text::replaced(b, " "@, "+"@);
    assert(search_address(b) == "https://html.duckduckgo.com/html/?q="@ + rest);
}

} // verus!
