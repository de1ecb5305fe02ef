//! Facts about the text primitives: how trimming, joining, splitting and
//! numerals undo one another.

use crate::text;
use vstd::prelude::*;

verus! {

/// Neither end of `s` is white space.
pub open spec fn tight(s: Seq<char>) -> bool {
    s.len() > 0 ==> !text::white(s[0]) && !text::white(s.last())
}

/// `s` does not hold the character `c`.
pub open spec fn free_of(s: Seq<char>, c: char) -> bool {
    forall|i: int| 0 <= i < s.len() ==> #[trigger] s[i] != c
}

/// Trimming leaves exactly the texts alone that have no white space at an end.
pub proof fn lemma_tight(s: Seq<char>)
    ensures
        tight(s) <==> text::trimmed(s) == s,
{
    text::lemma_ltrim(s);
    text::lemma_rtrim_keeps(text::ltrim(s));
    let l = text::ltrim(s);
    if text::trimmed(s) == s {
        assert(l.len() == s.len());
        assert(l =~= s);
    }
}

/// Leading white space does not count.
pub proof fn lemma_trim_lead(w: Seq<char>, s: Seq<char>)
    requires
        text::blank(w),
    ensures
        text::ltrim(w + s) == text::ltrim(s),
        text::trimmed(w + s) == text::trimmed(s),
    decreases w.len(),
{
    if w.len() == 0 {
        assert(w + s =~= s);
    } else {
        let x = w + s;
        assert(x[0] == w[0]);
        assert(text::white(w[0]));
        assert(x.drop_first() =~= w.drop_first() + s);
        assert forall|i: int| 0 <= i < w.drop_first().len() implies text::white(
            #[trigger] w.drop_first()[i],
        ) by {
            assert(w.drop_first()[i] == w[i + 1]);
        }
        lemma_trim_lead(w.drop_first(), s);
    }
}

/// Trailing white space does not count.
pub proof fn lemma_rtrim_trail(s: Seq<char>, w: Seq<char>)
    requires
        text::blank(w),
    ensures
        text::rtrim(s + w) == text::rtrim(s),
    decreases w.len(),
{
    if w.len() == 0 {
        assert(s + w =~= s);
    } else {
        let x = s + w;
        assert(x.last() == w.last());
        assert(text::white(w[w.len() - 1]));
        assert(x.drop_last() =~= s + w.drop_last());
        assert forall|i: int| 0 <= i < w.drop_last().len() implies text::white(
            #[trigger] w.drop_last()[i],
        ) by {
            assert(w.drop_last()[i] == w[i]);
        }
        lemma_rtrim_trail(s, w.drop_last());
    }
}

/// Trimming a text without white space at its ends, with white space put round it,
/// gives the text back.
pub proof fn lemma_trim_around(a: Seq<char>, s: Seq<char>, b: Seq<char>)
    requires
        text::blank(a),
        text::blank(b),
        tight(s),
    ensures
        text::trimmed(a + s + b) == s,
{
    assert(a + s + b =~= a + (s + b));
    lemma_trim_lead(a, s + b);
    if s.len() > 0 {
        assert((s + b)[0] == s[0]);
        assert(text::ltrim(s + b) == s + b);
        lemma_rtrim_trail(s, b);
        lemma_tight(s);
        assert(text::ltrim(s) == s);
    } else {
        assert(s + b =~= b);
        text::lemma_trimmed_blank(b);
        assert(text::trimmed(b) =~= s);
    }
}

/// The first of several parts can be taken out of a join.
pub proof fn lemma_joined_cons(a: Seq<char>, rest: Seq<Seq<char>>, sep: Seq<char>)
    requires
        rest.len() > 0,
    ensures
        text::joined(seq![a] + rest, sep) == a + sep + text::joined(rest, sep),
    decreases rest.len(),
{
    let all = seq![a] + rest;
    assert(all.drop_last() =~= seq![a] + rest.drop_last());
    assert(all.last() == rest.last());
    if rest.len() == 1 {
        assert(all.drop_last() =~= seq![a]);
        assert(text::joined(seq![a], sep) == a);
    } else {
        lemma_joined_cons(a, rest.drop_last(), sep);
        assert(text::joined(all, sep) =~= a + sep + text::joined(rest, sep));
    }
}

/// A join of two runs of parts is the joins of the two with one separator between.
pub proof fn lemma_joined_append(a: Seq<Seq<char>>, b: Seq<Seq<char>>, sep: Seq<char>)
    requires
        a.len() > 0,
        b.len() > 0,
    ensures
        text::joined(a + b, sep) == text::joined(a, sep) + sep + text::joined(b, sep),
    decreases b.len(),
{
    let all = a + b;
    assert(all.drop_last() =~= a + b.drop_last());
    assert(all.last() == b.last());
    if b.len() == 1 {
        assert(all.drop_last() =~= a);
    } else {
        lemma_joined_append(a, b.drop_last(), sep);
        assert(text::joined(all, sep) =~= text::joined(a, sep) + sep + text::joined(b, sep));
    }
}

/// A text that can stand as a line: it holds no line feed and does not end in a
/// carriage return.
pub open spec fn line_like(s: Seq<char>) -> bool {
    free_of(s, '\n') && !text::tails(s, '\r')
}

/// The lines of a join by line feeds are the parts, where the last is not empty.
pub proof fn lemma_lines_of_joined(ls: Seq<Seq<char>>)
    requires
        ls.len() > 0,
        ls.last().len() > 0,
        forall|i: int| 0 <= i < ls.len() ==> line_like(#[trigger] ls[i]),
    ensures
        text::lines_of(text::joined(ls, "\n"@)) == ls,
        text::joined(ls, "\n"@).len() > 0,
    decreases ls.len(),
{
    reveal_strlit("\n");
    let s = text::joined(ls, "\n"@);
    assert(line_like(ls[0]));
    if ls.len() == 1 {
        assert(s == ls[0]);
        text::lemma_first_char_none(s, '\n');
        assert(ls =~= seq![s]);
    } else {
        let rest = ls.drop_first();
        assert(ls =~= seq![ls[0]] + rest);
        lemma_joined_cons(ls[0], rest, "\n"@);
        let n = ls[0].len() as int;
        assert(s[n] == '\n');
        assert forall|j: int| 0 <= j < n implies s[j] != '\n' by {
            assert(s[j] == ls[0][j]);
        }
        text::lemma_first_char_is(s, '\n', n);
        assert(s.take(n) =~= ls[0]);
        assert(s.skip(n + 1) =~= text::joined(rest, "\n"@));
        assert forall|i: int| 0 <= i < rest.len() implies line_like(#[trigger] rest[i]) by {
            assert(rest[i] == ls[i + 1]);
        }
        assert(rest.last() == ls.last());
        lemma_lines_of_joined(rest);
    }
}

/// Where `p` first stands in `s`, given that it stands at `n` and nowhere before.
pub proof fn lemma_find_is(s: Seq<char>, p: Seq<char>, i: int, n: int)
    requires
        0 <= i <= n,
        text::occurs_at(s, p, n),
        forall|j: int| i <= j < n ==> !#[trigger] text::occurs_at(s, p, j),
    ensures
        text::find_from(s, p, i) == Some(n),
    decreases n - i,
{
    if i < n {
        assert(!text::occurs_at(s, p, i));
        lemma_find_is(s, p, i + 1, n);
    }
}

/// Where a search ends, it ends at an occurrence, and there is none before.
pub proof fn lemma_find(s: Seq<char>, p: Seq<char>, i: int)
    requires
        0 <= i,
    ensures
        text::find_from(s, p, i) matches Some(n) ==> i <= n && text::occurs_at(s, p, n) && (
        forall|j: int| i <= j < n ==> !#[trigger] text::occurs_at(s, p, j)),
        text::find_from(s, p, i) is None ==> forall|j: int|
            i <= j ==> !#[trigger] text::occurs_at(s, p, j),
    decreases s.len() + 1 - i,
{
    if i + p.len() <= s.len() && !text::occurs_at(s, p, i) {
        lemma_find(s, p, i + 1);
    }
}

/// A numeral is made of digits.
pub proof fn lemma_decimal_digits(n: nat)
    ensures
        text::all_digits(text::decimal(n)),
        text::digits_value(text::decimal(n)) == n,
    decreases n,
{
    if n < 10 {
        let d = text::decimal(n);
        assert(d.drop_last() =~= Seq::<char>::empty());
        assert(text::digits_value(d.drop_last()) == 0);
        assert(d.last() as nat == 48 + n);
    } else {
        lemma_decimal_digits(n / 10);
        let d = text::decimal(n);
        let e = text::decimal(n / 10);
        assert(d.drop_last() =~= e);
        assert(d.last() as nat == 48 + n % 10);
        assert forall|i: int| 0 <= i < d.len() implies text::is_digit(#[trigger] d[i]) by {
            if i < e.len() {
                assert(d[i] == e[i]);
            }
        }
    }
}

/// Reading a numeral gives back the number that it was written for.
pub proof fn law_numeral_reads_back(n: nat, max: nat)
    requires
        n <= max,
    ensures
        text::number_in(text::decimal(n), max) == Some(n),
{
    lemma_decimal_digits(n);
    let d = text::decimal(n);
    assert(text::is_digit(d[0]));
}

/// Splitting at a character undoes a join by it, where no part holds it.
pub proof fn lemma_split_of_joined(parts: Seq<Seq<char>>, c: char, sep: Seq<char>)
    requires
        parts.len() > 0,
        sep == seq![c],
        forall|i: int| 0 <= i < parts.len() ==> free_of(#[trigger] parts[i], c),
    ensures
        text::split_at_char(text::joined(parts, sep), c) == parts,
    decreases parts.len(),
{
    let s = text::joined(parts, sep);
    assert(free_of(parts[0], c));
    if parts.len() == 1 {
        assert(s == parts[0]);
        text::lemma_first_char_none(s, c);
        assert(parts =~= seq![s]);
    } else {
        let rest = parts.drop_first();
        assert(parts =~= seq![parts[0]] + rest);
        lemma_joined_cons(parts[0], rest, sep);
        let n = parts[0].len() as int;
        assert(s[n] == c);
        assert forall|j: int| 0 <= j < n implies s[j] != c by {
            assert(s[j] == parts[0][j]);
        }
        text::lemma_first_char_is(s, c, n);
        assert(s.take(n) =~= parts[0]);
        assert(s.skip(n + 1) =~= text::joined(rest, sep));
        assert forall|i: int| 0 <= i < rest.len() implies free_of(#[trigger] rest[i], c) by {
            assert(rest[i] == parts[i + 1]);
        }
        lemma_split_of_joined(rest, c, sep);
    }
}

/// Nothing is left out of parts that are all non-empty.
pub proof fn lemma_all_nonempty(parts: Seq<Seq<char>>)
    requires
        forall|i: int| 0 <= i < parts.len() ==> (#[trigger] parts[i]).len() > 0,
    ensures
        text::nonempty(parts) == parts,
    decreases parts.len(),
{
    if parts.len() > 0 {
        let rest = parts.drop_last();
        assert forall|i: int| 0 <= i < rest.len() implies (#[trigger] rest[i]).len() > 0 by {
            assert(rest[i] == parts[i]);
        }
        lemma_all_nonempty(rest);
        assert(parts[parts.len() - 1].len() > 0);
        assert(rest.push(parts.last()) =~= parts);
    } else {
        assert(parts =~= Seq::<Seq<char>>::empty());
    }
}

/// What is cut off at the front is white space.
proof fn lemma_ltrim_cut(s: Seq<char>)
    ensures
        text::ltrim(s).len() <= s.len(),
        text::blank(s.take(s.len() - text::ltrim(s).len())),
        s == s.take(s.len() - text::ltrim(s).len()) + text::ltrim(s),
    decreases s.len(),
{
    text::lemma_ltrim(s);
    let n = s.len() - text::ltrim(s).len();
    assert(s =~= s.take(n) + s.skip(n));
    if s.len() > 0 && text::white(s[0]) {
        let t = s.drop_first();
        lemma_ltrim_cut(t);
        assert forall|i: int| 0 <= i < n implies text::white(#[trigger] s.take(n)[i]) by {
            if i > 0 {
                assert(t.take(n - 1)[i - 1] == s.take(n)[i]);
            }
        }
    }
}

/// Trimming takes white space off the ends of a text, all of it and nothing else.
pub proof fn law_trimming(s: Seq<char>)
    ensures
        exists|n: int, m: int|
            0 <= n <= m <= s.len() && text::trimmed(s) == #[trigger] s.subrange(n, m)
                && text::blank(s.take(n)) && text::blank(s.skip(m)),
        tight(text::trimmed(s)),
        exists|n: int|
            0 <= n <= s.len() && text::ltrim(s) == #[trigger] s.skip(n) && text::blank(s.take(n)),
        text::ltrim(s).len() > 0 ==> !text::white(text::ltrim(s)[0]),
        exists|n: int|
            0 <= n <= s.len() && text::rtrim(s) == #[trigger] s.take(n) && text::blank(s.skip(n)),
        text::rtrim(s).len() > 0 ==> !text::white(text::rtrim(s).last()),
{
    lemma_ltrim_cut(s);
    text::lemma_ltrim(s);
    let l = text::ltrim(s);
    let n = s.len() - l.len();
    text::lemma_rtrim_keeps(l);
    text::lemma_rtrim_keeps(s);
    let t = text::trimmed(s);
    let m = n + t.len();
    assert(t =~= s.subrange(n, m));
    assert(text::blank(s.skip(m))) by {
        assert forall|i: int| 0 <= i < s.skip(m).len() implies text::white(
            #[trigger] s.skip(m)[i],
        ) by {
            assert(s.skip(m)[i] == l[t.len() + i]);
        }
    }
    let k = text::rtrim(s).len() as int;
    assert(text::blank(s.skip(k))) by {
        assert forall|i: int| 0 <= i < s.skip(k).len() implies text::white(
            #[trigger] s.skip(k)[i],
        ) by {
            assert(s.skip(k)[i] == s[k + i]);
        }
    }
    if t.len() > 0 {
        assert(t[0] == l[0]);
    }
}

/// White space are the blank, the tabulator and the ends of lines; no visible character of
/// ASCII is.
pub proof fn law_white_space(c: char)
    ensures
        text::white(' ') && text::white('\n') && text::white('\t') && text::white('\r'),
        '!' <= c <= '~' ==> !text::white(c),
{
}

/// `t` is a part of `s`.
#[verifier::opaque]
pub open spec fn part_of(t: Seq<char>, s: Seq<char>) -> bool {
    exists|a: Seq<char>, b: Seq<char>| s == #[trigger] (a + t + b)
}

/// What stands between two texts is a part of the whole.
pub proof fn lemma_part(a: Seq<char>, t: Seq<char>, b: Seq<char>)
    ensures
        part_of(t, a + t + b),
{
    reveal(part_of);
}

/// A part of a part is a part of the whole.
pub proof fn lemma_part_of_part(t: Seq<char>, p: Seq<char>, a: Seq<char>, b: Seq<char>)
    requires
        part_of(t, p),
    ensures
        part_of(t, a + p + b),
{
    reveal(part_of);
    let (c, d) = choose|c: Seq<char>, d: Seq<char>| p == #[trigger] (c + t + d);
    assert(a + p + b =~= (a + c) + t + (d + b));
}

/// What stands at the end is a part of the whole.
pub proof fn lemma_part_end(a: Seq<char>, t: Seq<char>)
    ensures
        part_of(t, a + t),
{
    lemma_part(a, t, Seq::empty());
    assert(a + t + Seq::<char>::empty() =~= a + t);
}

/// A part stays one when something is put behind the whole.
pub proof fn lemma_part_grows(t: Seq<char>, p: Seq<char>, b: Seq<char>)
    requires
        part_of(t, p),
    ensures
        part_of(t, p + b),
{
    lemma_part_of_part(t, p, Seq::empty(), b);
    assert(Seq::<char>::empty() + p + b =~= p + b);
}

/// `p` stands in `s` at `n` and nowhere else.
pub open spec fn only_at(s: Seq<char>, p: Seq<char>, n: int) -> bool {
    &&& text::occurs_at(s, p, n)
    &&& forall|j: int| #[trigger] text::occurs_at(s, p, j) ==> j == n
}

/// `p` stands in `a + p + b` right after `a` and nowhere before.
pub open spec fn first_after(a: Seq<char>, p: Seq<char>, b: Seq<char>) -> bool {
    forall|j: int| 0 <= j < a.len() ==> !#[trigger] text::occurs_at(a + p + b, p, j)
}

/// Replacing goes from one occurrence to the next: what stands before the first is kept, it is
/// replaced by the whole of the new text, and what stands behind it is treated likewise.
pub proof fn law_replaced_step(a: Seq<char>, p: Seq<char>, b: Seq<char>, to: Seq<char>)
    requires
        p.len() > 0,
        first_after(a, p, b),
    ensures
        text::replaced(a + p + b, p, to) == a + to + text::replaced(b, p, to),
{
    let s = a + p + b;
    let n = a.len() as int;
    assert(s.subrange(n, n + p.len()) =~= p);
    lemma_find_is(s, p, 0, n);
    assert(s.take(n) =~= a);
    assert(s.skip(n + p.len()) =~= b);
}

/// A text in which there is nothing to replace is left as it is, and one in which there is one
/// thing to replace has exactly that replaced by the whole of the new text.
pub proof fn law_replaced_once(a: Seq<char>, p: Seq<char>, b: Seq<char>, to: Seq<char>, s: Seq<char>)
    requires
        p.len() > 0,
    ensures
        (forall|j: int| !#[trigger] text::occurs_at(s, p, j)) ==> text::replaced(s, p, to) == s,
        only_at(a + p + b, p, a.len() as int) ==> text::replaced(a + p + b, p, to) == a + to + b,
{
    lemma_find(s, p, 0);
    let t = a + p + b;
    if only_at(t, p, a.len() as int) {
        assert forall|j: int| 0 <= j < a.len() implies !#[trigger] text::occurs_at(t, p, j) by {}
        law_replaced_step(a, p, b, to);
        lemma_find(b, p, 0);
        match text::first_of(b, p) {
            Some(j) => {
                let k = a.len() + p.len() + j;
                assert(t.subrange(k, k + p.len()) =~= b.subrange(j, j + p.len()));
                assert(text::occurs_at(t, p, k));
            },
            None => {},
        }
        assert(text::replaced(b, p, to) == b);
    }
}

/// A text is split at the first separator, into all that stands before it and all that stands
/// behind it; one without a separator is not split.
pub proof fn law_splitting(a: Seq<char>, c: char, b: Seq<char>, n: nat)
    requires
        free_of(a, c),
    ensures
        text::split_pair(a + seq![c] + b, c) == Some((a, b)),
        text::split_pair(a, c) is None,
        text::before_char(a + seq![c] + b, c) == a,
        text::before_char(a, c) == a,
        text::split_at_char(a + seq![c] + b, c) == seq![a] + text::split_at_char(b, c),
        text::split_at_char(a, c) == seq![a],
        n > 0 ==> text::split_at_most(a + seq![c] + b, c, n + 1) == seq![a] + text::split_at_most(
            b,
            c,
            n,
        ),
        text::split_at_most(b, c, 1) == seq![b],
{
    let s = a + seq![c] + b;
    let k = a.len() as int;
    assert(s[k] == c);
    assert forall|j: int| 0 <= j < k implies #[trigger] s[j] != c by {
        assert(s[j] == a[j]);
    }
    text::lemma_first_char_is(s, c, k);
    text::lemma_first_char_none(a, c);
    assert(s.take(k) =~= a);
    assert(s.skip(k + 1) =~= b);
}

/// A text falls into its lines, each without what ends it and otherwise unchanged.
pub proof fn law_lines(a: Seq<char>, b: Seq<char>)
    requires
        free_of(a, '\n'),
    ensures
        !(a.len() > 0 && a.last() == '\r') ==> text::lines_of(a + seq!['\n'] + b) == seq![a]
            + text::lines_of(b),
        text::lines_of(a + seq!['\r'] + seq!['\n'] + b) == seq![a] + text::lines_of(b),
        a.len() > 0 ==> text::lines_of(a) == seq![a],
        text::lines_of(Seq::empty()).len() == 0,
{
    let s = a + seq!['\n'] + b;
    let k = a.len() as int;
    law_splitting(a, '\n', b, 0);
    lemma_line_end(a, b);
    assert(s.take(k) =~= a);
    assert(s.skip(k + 1) =~= b);
    let r = a + seq!['\r'];
    assert forall|i: int| 0 <= i < r.len() implies #[trigger] r[i] != '\n' by {
        if i < k {
            assert(r[i] == a[i]);
        }
    }
    let t = r + seq!['\n'] + b;
    lemma_line_end(r, b);
    assert(t.take(k + 1) =~= r);
    assert(t.skip(k + 2) =~= b);
    assert(r.drop_last() =~= a);
    text::lemma_first_char_none(a, '\n');
}

proof fn lemma_line_end(a: Seq<char>, b: Seq<char>)
    requires
        free_of(a, '\n'),
    ensures
        text::first_char(a + seq!['\n'] + b, '\n') == Some(a.len() as int),
{
    let s = a + seq!['\n'] + b;
    assert(s[a.len() as int] == '\n');
    assert forall|j: int| 0 <= j < a.len() implies #[trigger] s[j] != '\n' by {
        assert(s[j] == a[j]);
    }
    text::lemma_first_char_is(s, '\n', a.len() as int);
}

/// What is put before a text or behind it can be taken off again.
pub proof fn law_prefixes(p: Seq<char>, s: Seq<char>)
    ensures
        text::begins_with(p + s, p),
        text::finishes_with(s + p, p),
        text::after_prefix(p + s, p) == Some(s),
        text::before_suffix(s + p, p) == Some(s),
        p.len() > 0 ==> text::ltrim_str(p + s, p) == text::ltrim_str(s, p),
        p.len() > 0 && !text::begins_with(s, p) ==> text::ltrim_str(s, p) == s,
        s.len() < p.len() ==> text::after_prefix(s, p) is None && text::before_suffix(s, p) is None,
{
    let a = p + s;
    let b = s + p;
    assert(a.subrange(0, p.len() as int) =~= p);
    assert(a.skip(p.len() as int) =~= s);
    assert(b.subrange(b.len() - p.len(), b.len() as int) =~= p);
    assert(b.take(b.len() - p.len()) =~= s);
}

/// Capitals become the small letters that they are the capitals of, and nothing else changes.
pub proof fn law_small_letters(c: char, s: Seq<char>, i: int)
    ensures
        'A' <= c <= 'Z' ==> 'a' <= text::lower_char(c) <= 'z' && text::lower_char(c) as int - 'a' as int
            == c as int - 'A' as int,
        !('A' <= c <= 'Z') ==> text::lower_char(c) == c,
        text::lowered(s).len() == s.len(),
        0 <= i < s.len() ==> text::lowered(s)[i] == text::lower_char(s[i]),
{
}

/// A number is read from digits alone, with at most a plus sign before them; a numeral reads
/// back, and one that is too large is refused.
pub proof fn law_numbers(n: nat, max: nat, s: Seq<char>, i: int)
    ensures
        n <= max ==> text::number_in(seq!['+'] + text::decimal(n), max) == Some(n),
        n > max ==> text::number_in(text::decimal(n), max) is None,
        0 <= i < s.len() && !text::is_digit(s[i]) && (i > 0 || s[0] != '+') ==> text::number_in(
            s,
            max,
        ) is None,
        n <= u64::MAX ==> text::u64_in(text::decimal(n)) == Some(n as u64),
        n <= usize::MAX ==> text::size_in(text::decimal(n)) == Some(n as usize),
{
    lemma_decimal_digits(n);
    let d = text::decimal(n);
    assert(text::is_digit(d[0]));
    let p = seq!['+'] + d;
    assert(p.drop_first() =~= d);
    if n <= u64::MAX {
        law_numeral_reads_back(n, u64::MAX as nat);
    }
    if n <= usize::MAX {
        law_numeral_reads_back(n, usize::MAX as nat);
    }
    if 0 <= i < s.len() && !text::is_digit(s[i]) && (i > 0 || s[0] != '+') {
        let u = text::unsigned_digits(s);
        if s.len() > 1 && s[0] == '+' {
            assert(u[i - 1] == s[i]);
        } else {
            assert(u[i] == s[i]);
        }
    }
}

/// A number below zero is written with its sign.
pub proof fn law_signed_numerals(n: nat)
    ensures
        text::signed_decimal(n as int) == text::decimal(n),
        n > 0 ==> text::signed_decimal(-(n as int)) == seq!['-'] + text::decimal(n),
{
}

/// Items are kept in order, trimmed; blank ones are left out.
pub proof fn law_items(before: Seq<Seq<char>>, part: Seq<char>)
    ensures
        text::filled(Seq::empty()).len() == 0,
        !text::blank(part) ==> text::filled(before.push(part)) == text::filled(before).push(
            text::trimmed(part),
        ),
        text::blank(part) ==> text::filled(before.push(part)) == text::filled(before),
        part.len() > 0 ==> text::nonempty(before.push(part)) == text::nonempty(before).push(part),
        part.len() == 0 ==> text::nonempty(before.push(part)) == text::nonempty(before),
{
    assert(before.push(part).drop_last() =~= before);
    text::lemma_trimmed_blank(part);
}

/// The items of a list between commas are all there is between them, trimmed.
pub proof fn law_comma_items(a: Seq<char>, b: Seq<char>)
    requires
        free_of(a, ','),
    ensures
        !text::blank(a) ==> text::comma_items(a + seq![','] + b) == seq![text::trimmed(a)]
            + text::comma_items(b),
        text::blank(a) ==> text::comma_items(a + seq![','] + b) == text::comma_items(b),
        !text::blank(a) ==> text::comma_items(a) == seq![text::trimmed(a)],
{
    law_splitting(a, ',', b, 0);
    lemma_filled_cons(a, text::split_at_char(b, ','));
    lemma_filled_cons(a, Seq::empty());
    assert(seq![a] + Seq::<Seq<char>>::empty() =~= seq![a]);
    assert(seq![text::trimmed(a)] + Seq::<Seq<char>>::empty() =~= seq![text::trimmed(a)]);
    assert(text::filled(Seq::empty()) =~= Seq::<Seq<char>>::empty());
}

proof fn lemma_filled_cons(a: Seq<char>, rest: Seq<Seq<char>>)
    ensures
        text::filled(seq![a] + rest) == if text::blank(a) {
            text::filled(rest)
        } else {
            seq![text::trimmed(a)] + text::filled(rest)
        },
    decreases rest.len(),
{
    let all = seq![a] + rest;
    if rest.len() == 0 {
        assert(all =~= Seq::<Seq<char>>::empty().push(a));
        law_items(Seq::empty(), a);
        assert(text::filled(Seq::empty()) =~= Seq::<Seq<char>>::empty());
        assert(rest =~= Seq::<Seq<char>>::empty());
        assert(Seq::<Seq<char>>::empty().push(text::trimmed(a)) =~= seq![text::trimmed(a)] + Seq::<
            Seq<char>,
        >::empty());
    } else {
        let less = rest.drop_last();
        let last = rest.last();
        lemma_filled_cons(a, less);
        assert(all =~= (seq![a] + less).push(last));
        assert(rest =~= less.push(last));
        law_items(seq![a] + less, last);
        law_items(less, last);
        if !text::blank(a) && !text::blank(last) {
            assert((seq![text::trimmed(a)] + text::filled(less)).push(text::trimmed(last))
                =~= seq![text::trimmed(a)] + text::filled(less).push(text::trimmed(last)));
        }
    }
}

/// What stands behind the last of several separators is all that stands there.
pub proof fn law_behind_the_last(a: Seq<char>, c: char, b: Seq<char>)
    requires
        free_of(b, c),
    ensures
        text::after_last(a + seq![c] + b, c) == b,
        text::last_char(a + seq![c] + b, c) == Some(a.len() as int),
        text::after_last(b, c) == b,
    decreases b.len(),
{
    let s = a + seq![c] + b;
    if b.len() > 0 {
        let d = b.drop_last();
        assert(s.last() == b[b.len() - 1]);
        assert(s.drop_last() =~= a + seq![c] + d);
        assert forall|i: int| 0 <= i < d.len() implies #[trigger] d[i] != c by {
            assert(d[i] == b[i]);
        }
        law_behind_the_last(a, c, d);
        lemma_last_none(b, c);
    }
    assert(s.skip(a.len() as int + 1) =~= b);
}

proof fn lemma_last_none(b: Seq<char>, c: char)
    requires
        free_of(b, c),
    ensures
        text::last_char(b, c) is None,
    decreases b.len(),
{
    if b.len() > 0 {
        let d = b.drop_last();
        assert(b[b.len() - 1] != c);
        assert forall|i: int| 0 <= i < d.len() implies #[trigger] d[i] != c by {
            assert(d[i] == b[i]);
        }
        lemma_last_none(d, c);
    }
}

} // verus!
