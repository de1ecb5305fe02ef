//! Text primitives over Unicode scalar values.
//!
//! Each operation is stated over the characters of a string; positions are
//! character positions. The specification functions come first, the functions
//! that compute them after.

use vstd::prelude::*;

verus! {

/// The Unicode `White_Space` property.
pub open spec fn white(c: char) -> bool {
    ||| '\u{9}' <= c <= '\u{d}'
    ||| c == '\u{20}'
    ||| c == '\u{85}'
    ||| c == '\u{a0}'
    ||| c == '\u{1680}'
    ||| '\u{2000}' <= c <= '\u{200a}'
    ||| c == '\u{2028}'
    ||| c == '\u{2029}'
    ||| c == '\u{202f}'
    ||| c == '\u{205f}'
    ||| c == '\u{3000}'
}

/// `s` without its leading white space.
pub open spec fn ltrim(s: Seq<char>) -> Seq<char>
    decreases s.len(),
{
    if s.len() > 0 && white(s[0]) {
        ltrim(s.drop_first())
    } else {
        s
    }
}

/// `s` without its trailing white space.
pub open spec fn rtrim(s: Seq<char>) -> Seq<char>
    decreases s.len(),
{
    if s.len() > 0 && white(s.last()) {
        rtrim(s.drop_last())
    } else {
        s
    }
}

/// `s` without white space at either end.
pub open spec fn trimmed(s: Seq<char>) -> Seq<char> {
    rtrim(ltrim(s))
}

/// `s` holds nothing but white space.
pub open spec fn blank(s: Seq<char>) -> bool {
    forall|i: int| 0 <= i < s.len() ==> white(#[trigger] s[i])
}

/// `s` without the leading run of `c`.
pub open spec fn ltrim_char(s: Seq<char>, c: char) -> Seq<char>
    decreases s.len(),
{
    if s.len() > 0 && s[0] == c {
        ltrim_char(s.drop_first(), c)
    } else {
        s
    }
}

/// `s` without the trailing run of `c`.
pub open spec fn rtrim_char(s: Seq<char>, c: char) -> Seq<char>
    decreases s.len(),
{
    if s.len() > 0 && s.last() == c {
        rtrim_char(s.drop_last(), c)
    } else {
        s
    }
}

/// `s` without `c` at either end.
pub open spec fn trimmed_char(s: Seq<char>, c: char) -> Seq<char> {
    rtrim_char(ltrim_char(s, c), c)
}

/// `p` stands in `s` at position `i`.
pub open spec fn occurs_at(s: Seq<char>, p: Seq<char>, i: int) -> bool {
    &&& 0 <= i
    &&& i + p.len() <= s.len()
    &&& s.subrange(i, i + p.len()) == p
}

/// `s` begins with `p`.
pub open spec fn begins_with(s: Seq<char>, p: Seq<char>) -> bool {
    occurs_at(s, p, 0)
}

/// `s` ends with `p`.
pub open spec fn finishes_with(s: Seq<char>, p: Seq<char>) -> bool {
    occurs_at(s, p, s.len() - p.len())
}

/// What is left of `s` after the prefix `p`, where it has that prefix.
pub open spec fn after_prefix(s: Seq<char>, p: Seq<char>) -> Option<Seq<char>> {
    if begins_with(s, p) {
        Some(s.skip(p.len() as int))
    } else {
        None
    }
}

/// What is left of `s` before the suffix `p`, where it has that suffix.
pub open spec fn before_suffix(s: Seq<char>, p: Seq<char>) -> Option<Seq<char>> {
    if finishes_with(s, p) {
        Some(s.take(s.len() - p.len()))
    } else {
        None
    }
}

/// `s` without the leading repetitions of `p`.
pub open spec fn ltrim_str(s: Seq<char>, p: Seq<char>) -> Seq<char>
    decreases s.len(),
{
    if p.len() > 0 && begins_with(s, p) {
        ltrim_str(s.skip(p.len() as int), p)
    } else {
        s
    }
}

/// The first position at or after `i` where `p` stands in `s`.
pub open spec fn find_from(s: Seq<char>, p: Seq<char>, i: int) -> Option<int>
    decreases s.len() + 1 - i,
{
    if i < 0 || i + p.len() > s.len() {
        None
    } else if occurs_at(s, p, i) {
        Some(i)
    } else {
        find_from(s, p, i + 1)
    }
}

/// The first position where `p` stands in `s`.
pub open spec fn first_of(s: Seq<char>, p: Seq<char>) -> Option<int> {
    find_from(s, p, 0)
}

/// `p` stands somewhere in `s`.
pub open spec fn holds(s: Seq<char>, p: Seq<char>) -> bool {
    first_of(s, p) is Some
}

/// The first position of `c` in `s`.
pub open spec fn first_char(s: Seq<char>, c: char) -> Option<int>
    decreases s.len(),
{
    if s.len() == 0 {
        None
    } else if s[0] == c {
        Some(0)
    } else {
        match first_char(s.drop_first(), c) {
            Some(i) => Some(i + 1),
            None => None,
        }
    }
}

/// The last position of `c` in `s`.
pub open spec fn last_char(s: Seq<char>, c: char) -> Option<int>
    decreases s.len(),
{
    if s.len() == 0 {
        None
    } else if s.last() == c {
        Some(s.len() - 1)
    } else {
        last_char(s.drop_last(), c)
    }
}

/// The parts of `s` between the occurrences of `c`.
pub open spec fn split_at_char(s: Seq<char>, c: char) -> Seq<Seq<char>>
    decreases s.len(),
{
    match first_char(s, c) {
        Some(i) => if 0 <= i < s.len() {
            seq![s.take(i)] + split_at_char(s.skip(i + 1), c)
        } else {
            seq![s]
        },
        None => seq![s],
    }
}

/// The parts of `s` before and after the first `c`.
pub open spec fn split_pair(s: Seq<char>, c: char) -> Option<(Seq<char>, Seq<char>)> {
    match first_char(s, c) {
        Some(i) => Some((s.take(i), s.skip(i + 1))),
        None => None,
    }
}

/// `s` without one trailing carriage return.
pub open spec fn without_cr(s: Seq<char>) -> Seq<char> {
    if s.len() > 0 && s.last() == '\r' {
        s.drop_last()
    } else {
        s
    }
}

/// The lines of `s`: each ends before a line feed, or before a carriage return
/// and a line feed; the last one may lack the line feed.
pub open spec fn lines_of(s: Seq<char>) -> Seq<Seq<char>>
    decreases s.len(),
{
    if s.len() == 0 {
        Seq::empty()
    } else {
        match first_char(s, '\n') {
            Some(i) => if 0 <= i < s.len() {
                seq![without_cr(s.take(i))] + lines_of(s.skip(i + 1))
            } else {
                seq![s]
            },
            None => seq![s],
        }
    }
}

/// The parts in order, with `sep` between neighbours.
pub open spec fn joined(parts: Seq<Seq<char>>, sep: Seq<char>) -> Seq<char>
    decreases parts.len(),
{
    if parts.len() == 0 {
        Seq::empty()
    } else if parts.len() == 1 {
        parts[0]
    } else {
        joined(parts.drop_last(), sep) + sep + parts.last()
    }
}

/// `s` with every occurrence of `from`, taken from left to right without
/// overlap, replaced by `to`.
pub open spec fn replaced(s: Seq<char>, from: Seq<char>, to: Seq<char>) -> Seq<char>
    decreases s.len(),
{
    if from.len() == 0 {
        s
    } else {
        match first_of(s, from) {
            Some(i) => if 0 <= i && i + from.len() <= s.len() {
                s.take(i) + to + replaced(s.skip(i + from.len()), from, to)
            } else {
                s
            },
            None => s,
        }
    }
}

/// The position where the first run of non-white characters at or after `i` ends.
pub open spec fn word_end(s: Seq<char>, i: int) -> int
    decreases s.len() - i,
{
    if 0 <= i < s.len() && !white(s[i]) {
        word_end(s, i + 1)
    } else {
        i
    }
}

/// The words of `s`: its maximal runs of non-white characters.
pub open spec fn words_of(s: Seq<char>) -> Seq<Seq<char>>
    decreases s.len(),
{
    let t = ltrim(s);
    let n = word_end(t, 0);
    if 0 < n <= t.len() && t.len() <= s.len() {
        seq![t.take(n)] + words_of(t.skip(n))
    } else {
        Seq::empty()
    }
}

/// The character for one decimal digit.
pub open spec fn digit_char(d: nat) -> char {
    ((d % 10) + 48) as char
}

/// The decimal numeral of `n`.
pub open spec fn decimal(n: nat) -> Seq<char>
    decreases n,
{
    if n < 10 {
        seq![digit_char(n)]
    } else {
        decimal(n / 10).push(digit_char(n % 10))
    }
}

/// `c` is one of the ten decimal digits.
pub open spec fn is_digit(c: char) -> bool {
    '0' <= c <= '9'
}

/// The value of a sequence of decimal digits.
pub open spec fn digits_value(s: Seq<char>) -> nat
    decreases s.len(),
{
    if s.len() == 0 {
        0
    } else {
        digits_value(s.drop_last()) * 10 + (s.last() as nat - 48) as nat
    }
}

/// `s` is a non-empty sequence of decimal digits.
pub open spec fn all_digits(s: Seq<char>) -> bool {
    &&& s.len() > 0
    &&& forall|i: int| 0 <= i < s.len() ==> is_digit(#[trigger] s[i])
}

/// The digits of a numeral, which may follow one plus sign.
pub open spec fn unsigned_digits(s: Seq<char>) -> Seq<char> {
    if s.len() > 1 && s[0] == '+' {
        s.drop_first()
    } else {
        s
    }
}

/// The number that `s` writes, where it writes one of at most `max`.
pub open spec fn number_in(s: Seq<char>, max: nat) -> Option<nat> {
    let d = unsigned_digits(s);
    if all_digits(d) && digits_value(d) <= max {
        Some(digits_value(d))
    } else {
        None
    }
}

/// The character with ASCII capitals turned to small letters.
pub open spec fn lower_char(c: char) -> char {
    if 'A' <= c <= 'Z' {
        (c as u32 + 32) as char
    } else {
        c
    }
}

/// `s` with ASCII capitals turned to small letters.
pub open spec fn lowered(s: Seq<char>) -> Seq<char> {
    s.map_values(|c: char| lower_char(c))
}

/// The views of a vector of strings.
pub open spec fn views(v: Seq<String>) -> Seq<Seq<char>> {
    v.map_values(|s: String| s@)
}


/// `String::push` appends one character.
pub assume_specification[ String::push ](s: &mut String, c: char)
    ensures
        final(s)@ == old(s)@.push(c),
;

/// The characters of `s`.
pub fn chars_of(s: &str) -> (r: Vec<char>)
    ensures
        r@ == s@,
{
    let mut out: Vec<char> = Vec::new();
    for c in it: s.chars()
        invariant
            out@ == it.seq().take(it.index() as int),
            it.seq() == s@,
    {
        out.push(c);
    }
    out
}

/// Whether `c` has the Unicode `White_Space` property.
pub fn is_whitespace(c: char) -> (r: bool)
    ensures
        r == white(c),
{
    (c >= '\u{9}' && c <= '\u{d}') || c == '\u{20}' || c == '\u{85}' || c == '\u{a0}' || c
        == '\u{1680}' || (c >= '\u{2000}' && c <= '\u{200a}') || c == '\u{2028}' || c == '\u{2029}'
        || c == '\u{202f}' || c == '\u{205f}' || c == '\u{3000}'
}


/// Whether `a` and `b` hold the same characters.
pub fn same(a: &str, b: &str) -> (r: bool)
    ensures
        r == (a@ == b@),
{
    let x = chars_of(a);
    let y = chars_of(b);
    if x.len() != y.len() {
        return false;
    }
    let mut i: usize = 0;
    while i < x.len()
        invariant
            i <= x.len(),
            x.len() == y.len(),
            x@ == a@,
            y@ == b@,
            forall|j: int| 0 <= j < i ==> x@[j] == y@[j],
        decreases x.len() - i,
    {
        if x[i] != y[i] {
            return false;
        }
        i += 1;
    }
    assert(a@ =~= b@);
    true
}

/// `s` without its leading white space.
pub fn trim_start<'a>(s: &'a str) -> (r: &'a str)
    ensures
        r@ == ltrim(s@),
{
    let cs = chars_of(s);
    let mut i: usize = 0;
    assert(s@.skip(0) =~= s@);
    while i < cs.len() && is_whitespace(cs[i])
        invariant
            i <= cs.len(),
            cs@ == s@,
            ltrim(s@) == ltrim(s@.skip(i as int)),
        decreases cs.len() - i,
    {
        assert(s@.skip(i as int).drop_first() =~= s@.skip(i + 1));
        i += 1;
    }
    assert(s@.skip(i as int) =~= s@.subrange(i as int, s@.len() as int));
    s.substring_char(i, cs.len())
}

/// `s` without its trailing white space.
pub fn trim_end<'a>(s: &'a str) -> (r: &'a str)
    ensures
        r@ == rtrim(s@),
{
    let cs = chars_of(s);
    let mut n: usize = cs.len();
    assert(s@.take(n as int) =~= s@);
    while n > 0 && is_whitespace(cs[n - 1])
        invariant
            n <= cs.len(),
            cs@ == s@,
            rtrim(s@) == rtrim(s@.take(n as int)),
        decreases n,
    {
        assert(s@.take(n as int).drop_last() =~= s@.take(n - 1));
        n -= 1;
    }
    assert(s@.take(n as int) =~= s@.subrange(0, n as int));
    s.substring_char(0, n)
}

/// `s` without white space at either end.
pub fn trim<'a>(s: &'a str) -> (r: &'a str)
    ensures
        r@ == trimmed(s@),
{
    trim_end(trim_start(s))
}

/// `s` without the leading run of `c`.
pub fn trim_start_char<'a>(s: &'a str, c: char) -> (r: &'a str)
    ensures
        r@ == ltrim_char(s@, c),
{
    let cs = chars_of(s);
    let mut i: usize = 0;
    assert(s@.skip(0) =~= s@);
    while i < cs.len() && cs[i] == c
        invariant
            i <= cs.len(),
            cs@ == s@,
            ltrim_char(s@, c) == ltrim_char(s@.skip(i as int), c),
        decreases cs.len() - i,
    {
        assert(s@.skip(i as int).drop_first() =~= s@.skip(i + 1));
        i += 1;
    }
    assert(s@.skip(i as int) =~= s@.subrange(i as int, s@.len() as int));
    s.substring_char(i, cs.len())
}

/// `s` without the trailing run of `c`.
pub fn trim_end_char<'a>(s: &'a str, c: char) -> (r: &'a str)
    ensures
        r@ == rtrim_char(s@, c),
{
    let cs = chars_of(s);
    let mut n: usize = cs.len();
    assert(s@.take(n as int) =~= s@);
    while n > 0 && cs[n - 1] == c
        invariant
            n <= cs.len(),
            cs@ == s@,
            rtrim_char(s@, c) == rtrim_char(s@.take(n as int), c),
        decreases n,
    {
        assert(s@.take(n as int).drop_last() =~= s@.take(n - 1));
        n -= 1;
    }
    assert(s@.take(n as int) =~= s@.subrange(0, n as int));
    s.substring_char(0, n)
}

/// `s` without `c` at either end.
pub fn trim_char<'a>(s: &'a str, c: char) -> (r: &'a str)
    ensures
        r@ == trimmed_char(s@, c),
{
    trim_end_char(trim_start_char(s, c), c)
}

/// Whether `p` stands in `cs` at position `i`.
fn matches_at(cs: &Vec<char>, p: &Vec<char>, i: usize) -> (r: bool)
    ensures
        r == occurs_at(cs@, p@, i as int),
{
    if i > cs.len() || p.len() > cs.len() - i {
        return false;
    }
    let mut k: usize = 0;
    while k < p.len()
        invariant
            k <= p.len(),
            i + p.len() <= cs.len(),
            forall|j: int| 0 <= j < k ==> cs@[i + j] == p@[j],
        decreases p.len() - k,
    {
        if cs[i + k] != p[k] {
            assert(cs@.subrange(i as int, i + p.len())[k as int] != p@[k as int]);
            return false;
        }
        k += 1;
    }
    assert(cs@.subrange(i as int, i + p.len()) =~= p@);
    true
}

/// Whether `s` begins with `p`.
pub fn starts_with(s: &str, p: &str) -> (r: bool)
    ensures
        r == begins_with(s@, p@),
{
    matches_at(&chars_of(s), &chars_of(p), 0)
}

/// Whether `s` ends with `p`.
pub fn ends_with(s: &str, p: &str) -> (r: bool)
    ensures
        r == finishes_with(s@, p@),
{
    let cs = chars_of(s);
    let ps = chars_of(p);
    if ps.len() > cs.len() {
        return false;
    }
    matches_at(&cs, &ps, cs.len() - ps.len())
}

/// What is left of `s` after the prefix `p`.
pub fn strip_prefix<'a>(s: &'a str, p: &str) -> (r: Option<&'a str>)
    ensures
        r is Some <==> after_prefix(s@, p@) is Some,
        r matches Some(v) ==> Some(v@) == after_prefix(s@, p@),
{
    if starts_with(s, p) {
        let n = p.unicode_len();
        let v = s.substring_char(n, s.unicode_len());
        assert(v@ =~= s@.skip(n as int));
        Some(v)
    } else {
        None
    }
}

/// What is left of `s` before the suffix `p`.
pub fn strip_suffix<'a>(s: &'a str, p: &str) -> (r: Option<&'a str>)
    ensures
        r is Some <==> before_suffix(s@, p@) is Some,
        r matches Some(v) ==> Some(v@) == before_suffix(s@, p@),
{
    if ends_with(s, p) {
        let n = s.unicode_len() - p.unicode_len();
        let v = s.substring_char(0, n);
        assert(v@ =~= s@.take(n as int));
        Some(v)
    } else {
        None
    }
}

/// `s` without the leading repetitions of `p`.
pub fn trim_start_str<'a>(s: &'a str, p: &str) -> (r: &'a str)
    ensures
        r@ == ltrim_str(s@, p@),
{
    let cs = chars_of(s);
    let ps = chars_of(p);
    if ps.len() == 0 {
        return s;
    }
    let mut i: usize = 0;
    assert(s@.skip(0) =~= s@);
    while matches_at(&cs, &ps, i)
        invariant
            i <= cs.len(),
            cs@ == s@,
            ps@ == p@,
            ps.len() > 0,
            ltrim_str(s@, p@) == ltrim_str(s@.skip(i as int), p@),
        decreases cs.len() - i,
    {
        let ghost rest = s@.skip(i as int);
        assert(rest.subrange(0, p@.len() as int) =~= s@.subrange(i as int, i + p@.len()));
        assert(rest.skip(p@.len() as int) =~= s@.skip(i + p@.len()));
        i += ps.len();
    }
    let ghost rest = s@.skip(i as int);
    assert(!begins_with(rest, p@)) by {
        if begins_with(rest, p@) {
            assert(rest.subrange(0, p@.len() as int) =~= s@.subrange(i as int, i + p@.len()));
        }
    }
    assert(rest =~= s@.subrange(i as int, s@.len() as int));
    s.substring_char(i, cs.len())
}

/// The first position where `p` stands in `s`.
pub fn find(s: &str, p: &str) -> (r: Option<usize>)
    ensures
        r is Some <==> first_of(s@, p@) is Some,
        r matches Some(i) ==> first_of(s@, p@) == Some(i as int) && i + p@.len() <= s@.len(),
{
    let cs = chars_of(s);
    let ps = chars_of(p);
    if ps.len() > cs.len() {
        return None;
    }
    let last = cs.len() - ps.len();
    let mut i: usize = 0;
    loop
        invariant
            i <= last,
            last == cs.len() - ps.len(),
            cs@ == s@,
            ps@ == p@,
            first_of(s@, p@) == find_from(s@, p@, i as int),
        decreases last - i,
    {
        if matches_at(&cs, &ps, i) {
            return Some(i);
        }
        if i == last {
            assert(find_from(s@, p@, i + 1) is None);
            return None;
        }
        i += 1;
    }
}

/// Whether `p` stands somewhere in `s`.
pub fn contains(s: &str, p: &str) -> (r: bool)
    ensures
        r == holds(s@, p@),
{
    find(s, p).is_some()
}

/// The first position of `c` in `cs` gives a position in range.
pub proof fn lemma_first_char(s: Seq<char>, c: char)
    ensures
        match first_char(s, c) {
            Some(i) => 0 <= i < s.len() && s[i] == c && (forall|j: int|
                0 <= j < i ==> #[trigger] s[j] != c),
            None => forall|j: int| 0 <= j < s.len() ==> #[trigger] s[j] != c,
        },
    decreases s.len(),
{
    if s.len() > 0 && s[0] != c {
        lemma_first_char(s.drop_first(), c);
        let t = s.drop_first();
        assert forall|j: int| 0 < j < s.len() implies s[j] == #[trigger] t[j - 1] by {}
        match first_char(t, c) {
            Some(i) => {
                assert forall|j: int| 0 <= j < i + 1 implies #[trigger] s[j] != c by {
                    if j > 0 {
                        assert(s[j] == t[j - 1]);
                    }
                }
            },
            None => {
                assert forall|j: int| 0 <= j < s.len() implies #[trigger] s[j] != c by {
                    if j > 0 {
                        assert(s[j] == t[j - 1]);
                    }
                }
            },
        }
    }
}

/// A position that holds `c` with none before it is the first position of `c`.
pub proof fn lemma_first_char_is(s: Seq<char>, c: char, i: int)
    requires
        0 <= i < s.len(),
        s[i] == c,
        forall|j: int| 0 <= j < i ==> #[trigger] s[j] != c,
    ensures
        first_char(s, c) == Some(i),
{
    lemma_first_char(s, c);
    match first_char(s, c) {
        Some(k) => {
            if k < i {
                assert(s[k] != c);
            }
        },
        None => {
            assert(s[i] != c);
        },
    }
}

/// A sequence without `c` has no first position of `c`.
pub proof fn lemma_first_char_none(s: Seq<char>, c: char)
    requires
        forall|j: int| 0 <= j < s.len() ==> #[trigger] s[j] != c,
    ensures
        first_char(s, c) is None,
{
    lemma_first_char(s, c);
}

/// The first position of `c` in `s`.
pub fn find_char(s: &str, c: char) -> (r: Option<usize>)
    ensures
        r is Some <==> first_char(s@, c) is Some,
        r matches Some(i) ==> first_char(s@, c) == Some(i as int) && i < s@.len(),
{
    let cs = chars_of(s);
    let mut i: usize = 0;
    while i < cs.len()
        invariant
            i <= cs.len(),
            cs@ == s@,
            forall|j: int| 0 <= j < i ==> s@[j] != c,
        decreases cs.len() - i,
    {
        if cs[i] == c {
            proof {
                lemma_first_char_is(s@, c, i as int);
            }
            return Some(i);
        }
        i += 1;
    }
    proof {
        lemma_first_char_none(s@, c);
    }
    None
}

/// The last position of `c` in `s`.
pub fn rfind_char(s: &str, c: char) -> (r: Option<usize>)
    ensures
        r is Some <==> last_char(s@, c) is Some,
        r matches Some(i) ==> last_char(s@, c) == Some(i as int) && i < s@.len(),
{
    let cs = chars_of(s);
    let mut n: usize = cs.len();
    assert(s@.take(n as int) =~= s@);
    while n > 0
        invariant
            n <= cs.len(),
            cs@ == s@,
            last_char(s@, c) == last_char(s@.take(n as int), c),
        decreases n,
    {
        if cs[n - 1] == c {
            return Some(n - 1);
        }
        assert(s@.take(n as int).drop_last() =~= s@.take(n - 1));
        n -= 1;
    }
    None
}

/// The parts of `s` before and after the first `c`.
pub fn split_once<'a>(s: &'a str, c: char) -> (r: Option<(&'a str, &'a str)>)
    ensures
        r is Some <==> split_pair(s@, c) is Some,
        r matches Some(p) ==> split_pair(s@, c) == Some((p.0@, p.1@)),
{
    match find_char(s, c) {
        Some(i) => {
            let n = s.unicode_len();
            let a = s.substring_char(0, i);
            let b = s.substring_char(i + 1, n);
            assert(a@ =~= s@.take(i as int));
            assert(b@ =~= s@.skip(i + 1));
            Some((a, b))
        },
        None => None,
    }
}

/// The parts of `s` between the occurrences of `c`.
pub fn split(s: &str, c: char) -> (r: Vec<String>)
    ensures
        views(r@) == split_at_char(s@, c),
        r@.len() > 0,
{
    let mut out: Vec<String> = Vec::new();
    let mut rest: &str = s;
    assert(views(out@) + split_at_char(rest@, c) =~= split_at_char(s@, c));
    loop
        invariant
            views(out@) + split_at_char(rest@, c) == split_at_char(s@, c),
        decreases rest@.len(),
    {
        let ghost before = views(out@);
        match split_once(rest, c) {
            Some((a, b)) => {
                proof {
                    lemma_first_char(rest@, c);
                }
                out.push(a.to_string());
                assert(views(out@) =~= before.push(a@));
                assert(before + (seq![a@] + split_at_char(b@, c)) =~= before.push(a@)
                    + split_at_char(b@, c));
                rest = b;
            },
            None => {
                out.push(rest.to_string());
                assert(views(out@) =~= before + seq![rest@]);
                return out;
            },
        }
    }
}

/// The lines of `s`.
pub fn lines(s: &str) -> (r: Vec<String>)
    ensures
        views(r@) == lines_of(s@),
{
    let mut out: Vec<String> = Vec::new();
    let mut rest: &str = s;
    assert(views(out@) + lines_of(rest@) =~= lines_of(s@));
    while !rest.is_empty()
        invariant
            views(out@) + lines_of(rest@) == lines_of(s@),
        decreases rest@.len(),
    {
        let ghost before = views(out@);
        match split_once(rest, '\n') {
            Some((a, b)) => {
                proof {
                    lemma_first_char(rest@, '\n');
                }
                let line = match strip_suffix(a, "\r") {
                    Some(v) => v,
                    None => a,
                };
                proof {
                    reveal_strlit("\r");
                    assert("\r"@ =~= seq!['\r']);
                    if a@.len() > 0 {
                        assert(a@.subrange(a@.len() - 1, a@.len() as int) =~= seq![a@.last()]);
                        assert(a@.take(a@.len() - 1) =~= a@.drop_last());
                        assert(seq!['\r'][0] == '\r');
                        assert(seq![a@.last()][0] == a@.last());
                    }
                    assert(line@ =~= without_cr(a@));
                }
                out.push(line.to_string());
                assert(views(out@) =~= before.push(line@));
                assert(before + (seq![line@] + lines_of(b@)) =~= before.push(line@) + lines_of(b@));
                rest = b;
            },
            None => {
                out.push(rest.to_string());
                assert(views(out@) =~= before + seq![rest@]);
                return out;
            },
        }
    }
    assert(views(out@) + lines_of(rest@) =~= views(out@));
    out
}

/// The parts in order, with `sep` between neighbours.
pub fn join(parts: &Vec<String>, sep: &str) -> (r: String)
    ensures
        r@ == joined(views(parts@), sep@),
{
    let mut out = String::new();
    let mut i: usize = 0;
    assert(views(parts@).take(0) =~= Seq::<Seq<char>>::empty());
    while i < parts.len()
        invariant
            i <= parts.len(),
            out@ == joined(views(parts@).take(i as int), sep@),
        decreases parts.len() - i,
    {
        let ghost v = views(parts@);
        assert(v.take(i + 1).drop_last() =~= v.take(i as int));
        if i > 0 {
            out.append(sep);
        }
        out.append(parts[i].as_str());
        i += 1;
        if i == 1 {
            assert(out@ =~= v[0]);
        }
    }
    assert(views(parts@).take(i as int) =~= views(parts@));
    out
}

/// `s` with every occurrence of `from` replaced by `to`.
pub fn replace(s: &str, from: &str, to: &str) -> (r: String)
    ensures
        r@ == replaced(s@, from@, to@),
{
    if from.is_empty() {
        return s.to_string();
    }
    let mut out = String::new();
    let mut rest: &str = s;
    assert(out@ + replaced(rest@, from@, to@) =~= replaced(s@, from@, to@));
    loop
        invariant
            from@.len() > 0,
            out@ + replaced(rest@, from@, to@) == replaced(s@, from@, to@),
        decreases rest@.len(),
    {
        let ghost before = out@;
        match find(rest, from) {
            Some(i) => {
                let n = rest.unicode_len();
                let k = from.unicode_len();
                let head = rest.substring_char(0, i);
                let tail = rest.substring_char(i + k, n);
                assert(head@ =~= rest@.take(i as int));
                assert(tail@ =~= rest@.skip(i + from@.len()));
                out.append(head);
                out.append(to);
                assert(before + (head@ + to@ + replaced(tail@, from@, to@)) =~= out@ + replaced(
                    tail@,
                    from@,
                    to@,
                ));
                rest = tail;
            },
            None => {
                out.append(rest);
                return out;
            },
        }
    }
}


/// Left trimming never lengthens, and leaves no leading white space.
pub proof fn lemma_ltrim(s: Seq<char>)
    ensures
        ltrim(s).len() <= s.len(),
        ltrim(s) == s.skip(s.len() - ltrim(s).len()),
        ltrim(s).len() > 0 ==> !white(ltrim(s)[0]),
    decreases s.len(),
{
    if s.len() > 0 && white(s[0]) {
        lemma_ltrim(s.drop_first());
        let t = s.drop_first();
        assert(t.skip(t.len() - ltrim(t).len()) =~= s.skip(s.len() - ltrim(t).len()));
    } else {
        assert(s.skip(0) =~= s);
    }
}

/// A word ends inside the sequence, after non-white characters only.
pub proof fn lemma_word_end(s: Seq<char>, i: int)
    requires
        0 <= i <= s.len(),
    ensures
        i <= word_end(s, i) <= s.len(),
        word_end(s, i) < s.len() ==> white(s[word_end(s, i)]),
        forall|j: int| i <= j < word_end(s, i) ==> !white(#[trigger] s[j]),
        i < s.len() && !white(s[i]) ==> word_end(s, i) > i,
    decreases s.len() - i,
{
    if i < s.len() && !white(s[i]) {
        lemma_word_end(s, i + 1);
    }
}

/// The words of `s`: its maximal runs of non-white characters.
pub fn split_whitespace(s: &str) -> (r: Vec<String>)
    ensures
        views(r@) == words_of(s@),
{
    let mut out: Vec<String> = Vec::new();
    let mut rest: &str = s;
    assert(views(out@) + words_of(rest@) =~= words_of(s@));
    loop
        invariant
            views(out@) + words_of(rest@) == words_of(s@),
        decreases rest@.len(),
    {
        let ghost before = views(out@);
        let t = trim_start(rest);
        proof {
            lemma_ltrim(rest@);
            lemma_word_end(t@, 0);
        }
        let cs = chars_of(t);
        let mut n: usize = 0;
        while n < cs.len() && !is_whitespace(cs[n])
            invariant
                n <= cs.len(),
                cs@ == t@,
                word_end(t@, 0) == word_end(t@, n as int),
            decreases cs.len() - n,
        {
            n += 1;
        }
        if n == 0 {
            assert(before + words_of(rest@) =~= before);
            return out;
        }
        let w = t.substring_char(0, n);
        let next = t.substring_char(n, cs.len());
        assert(w@ =~= t@.take(n as int));
        assert(next@ =~= t@.skip(n as int));
        out.push(w.to_string());
        assert(views(out@) =~= before.push(w@));
        assert(before + (seq![w@] + words_of(next@)) =~= before.push(w@) + words_of(next@));
        rest = next;
    }
}

/// The decimal numeral of `n`.
pub fn to_decimal(n: u64) -> (r: String)
    ensures
        r@ == decimal(n as nat),
    decreases n,
{
    let d: u8 = (n % 10) as u8;
    let c: char = (48 + d) as char;
    assert(c == digit_char((n % 10) as nat));
    if n < 10 {
        let mut out = String::new();
        out.push(c);
        assert(out@ =~= seq![c]);
        out
    } else {
        let mut out = to_decimal(n / 10);
        out.push(c);
        out
    }
}

/// A prefix of a digit sequence writes no larger a number.
pub proof fn lemma_digits_prefix(s: Seq<char>, i: int)
    requires
        0 <= i <= s.len(),
        forall|j: int| 0 <= j < s.len() ==> is_digit(#[trigger] s[j]),
    ensures
        digits_value(s.take(i)) <= digits_value(s),
    decreases s.len() - i,
{
    if i == s.len() {
        assert(s.take(i) =~= s);
    } else {
        lemma_digits_prefix(s, i + 1);
        assert(s.take(i + 1).drop_last() =~= s.take(i));
    }
}

/// The number of at most `max` that `s` writes.
pub fn parse_number(s: &str, max: u64) -> (r: Option<u64>)
    ensures
        match r {
            Some(n) => number_in(s@, max as nat) == Some(n as nat),
            None => number_in(s@, max as nat) is None,
        },
{
    let cs = chars_of(s);
    let start: usize = if cs.len() > 1 && cs[0] == '+' {
        1
    } else {
        0
    };
    let ghost d = unsigned_digits(s@);
    assert(d =~= s@.skip(start as int));
    if cs.len() == start {
        return None;
    }
    let mut v: u64 = 0;
    let mut i: usize = start;
    assert(d.take(0) =~= Seq::<char>::empty());
    while i < cs.len()
        invariant
            start <= i <= cs.len(),
            cs@ == s@,
            d == s@.skip(start as int),
            d == unsigned_digits(s@),
            v <= max,
            forall|j: int| 0 <= j < i - start ==> is_digit(#[trigger] d[j]),
            v == digits_value(d.take(i - start)),
        decreases cs.len() - i,
    {
        let c = cs[i];
        assert(c == d[i - start]);
        if c < '0' || c > '9' {
            assert(!is_digit(d[i - start]));
            return None;
        }
        let x: u64 = (c as u32 - 48) as u64;
        proof {
            assert(d.take(i - start + 1).drop_last() =~= d.take(i - start));
        }
        if v > max / 10 || x > max - v * 10 {
            proof {
                if all_digits(d) {
                    lemma_digits_prefix(d, i - start + 1);
                }
            }
            return None;
        }
        v = v * 10 + x;
        i += 1;
    }
    assert(d.take(i - start) =~= d);
    Some(v)
}

/// `s` with ASCII capitals turned to small letters.
pub fn to_lower(s: &str) -> (r: String)
    ensures
        r@ == lowered(s@),
{
    let cs = chars_of(s);
    let mut out = String::new();
    let mut i: usize = 0;
    while i < cs.len()
        invariant
            i <= cs.len(),
            cs@ == s@,
            out@ == lowered(s@).take(i as int),
        decreases cs.len() - i,
    {
        out.push(lower(cs[i]));
        i += 1;
        assert(out@ =~= lowered(s@).take(i as int));
    }
    assert(lowered(s@).take(i as int) =~= lowered(s@));
    out
}

/// The character with ASCII capitals turned to small letters.
pub fn lower(c: char) -> (r: char)
    ensures
        r == lower_char(c),
{
    if c >= 'A' && c <= 'Z' {
        (c as u8 + 32) as char
    } else {
        c
    }
}

/// Whether `s` holds nothing but white space.
pub fn is_blank(s: &str) -> (r: bool)
    ensures
        r == blank(s@),
        r == (trimmed(s@).len() == 0),
{
    let t = trim(s);
    proof {
        lemma_trimmed_blank(s@);
    }
    t.is_empty()
}

/// Nothing is left of a text after trimming exactly when it is blank.
pub proof fn lemma_trimmed_blank(s: Seq<char>)
    ensures
        blank(s) == (trimmed(s).len() == 0),
    decreases s.len(),
{
    lemma_ltrim(s);
    let t = ltrim(s);
    if s.len() > 0 && white(s[0]) {
        let u = s.drop_first();
        lemma_trimmed_blank(u);
        if blank(u) {
            assert forall|i: int| 0 <= i < s.len() implies white(#[trigger] s[i]) by {
                if i > 0 {
                    assert(s[i] == u[i - 1]);
                }
            }
        }
        if blank(s) {
            assert forall|i: int| 0 <= i < u.len() implies white(#[trigger] u[i]) by {
                assert(u[i] == s[i + 1]);
            }
        }
    } else if s.len() > 0 {
        lemma_rtrim_keeps(s);
    }
}

/// Right trimming keeps everything up to the last non-white character.
pub proof fn lemma_rtrim_keeps(s: Seq<char>)
    ensures
        rtrim(s).len() <= s.len(),
        rtrim(s) == s.take(rtrim(s).len() as int),
        rtrim(s).len() > 0 ==> !white(rtrim(s).last()),
        forall|i: int| rtrim(s).len() <= i < s.len() ==> white(#[trigger] s[i]),
    decreases s.len(),
{
    if s.len() > 0 && white(s.last()) {
        let t = s.drop_last();
        lemma_rtrim_keeps(t);
        assert(t.take(rtrim(t).len() as int) =~= s.take(rtrim(t).len() as int));
        assert forall|i: int| rtrim(s).len() <= i < s.len() implies white(#[trigger] s[i]) by {
            if i < t.len() {
                assert(s[i] == t[i]);
            }
        }
    } else {
        assert(s.take(s.len() as int) =~= s);
    }
}


/// `s` begins with the character `c`.
pub open spec fn heads(s: Seq<char>, c: char) -> bool {
    s.len() > 0 && s[0] == c
}

/// `s` ends with the character `c`.
pub open spec fn tails(s: Seq<char>, c: char) -> bool {
    s.len() > 0 && s.last() == c
}

/// Whether `s` begins with the character `c`.
pub fn starts_with_char(s: &str, c: char) -> (r: bool)
    ensures
        r == heads(s@, c),
{
    !s.is_empty() && s.get_char(0) == c
}

/// Whether `s` ends with the character `c`.
pub fn ends_with_char(s: &str, c: char) -> (r: bool)
    ensures
        r == tails(s@, c),
{
    let n = s.unicode_len();
    n > 0 && s.get_char(n - 1) == c
}

/// What stands in `s` before the first `c`, or all of it.
pub open spec fn before_char(s: Seq<char>, c: char) -> Seq<char> {
    match first_char(s, c) {
        Some(i) => s.take(i),
        None => s,
    }
}

/// What stands in `s` before the first `c`, or all of it.
pub fn cut_at<'a>(s: &'a str, c: char) -> (r: &'a str)
    ensures
        r@ == before_char(s@, c),
{
    match split_once(s, c) {
        Some((a, _)) => a,
        None => s,
    }
}

/// What stands in `s` after the last `c`, or all of it.
pub open spec fn after_last(s: Seq<char>, c: char) -> Seq<char> {
    match last_char(s, c) {
        Some(i) => s.skip(i + 1),
        None => s,
    }
}

/// What stands in `s` after the last `c`, or all of it.
pub fn cut_after<'a>(s: &'a str, c: char) -> (r: &'a str)
    ensures
        r@ == after_last(s@, c),
{
    match rfind_char(s, c) {
        Some(i) => {
            let n = s.unicode_len();
            let r = s.substring_char(i + 1, n);
            assert(r@ =~= s@.skip(i + 1));
            r
        },
        None => s,
    }
}

/// The characters of `s` from position `i` on.
pub fn skip<'a>(s: &'a str, i: usize) -> (r: &'a str)
    requires
        i <= s@.len(),
    ensures
        r@ == s@.skip(i as int),
{
    let r = s.substring_char(i, s.unicode_len());
    assert(r@ =~= s@.skip(i as int));
    r
}

/// The first `i` characters of `s`.
pub fn take<'a>(s: &'a str, i: usize) -> (r: &'a str)
    requires
        i <= s@.len(),
    ensures
        r@ == s@.take(i as int),
{
    let r = s.substring_char(0, i);
    assert(r@ =~= s@.take(i as int));
    r
}

/// The characters of `a` followed by those of `b`.
pub fn cat(a: &str, b: &str) -> (r: String)
    ensures
        r@ == a@ + b@,
{
    let mut out = a.to_string();
    out.append(b);
    out
}

/// A copy of a list of strings.
pub fn copy_strings(v: &Vec<String>) -> (r: Vec<String>)
    ensures
        r@ == v@,
{
    let mut out: Vec<String> = Vec::new();
    let mut i: usize = 0;
    while i < v.len()
        invariant
            i <= v.len(),
            out@ == v@.take(i as int),
        decreases v.len() - i,
    {
        out.push(v[i].clone());
        i += 1;
        assert(out@ =~= v@.take(i as int));
    }
    assert(out@ =~= v@);
    out
}

/// Whether `v` holds the string `s`.
pub fn list_contains(v: &Vec<String>, s: &str) -> (r: bool)
    ensures
        r == views(v@).contains(s@),
{
    let mut i: usize = 0;
    while i < v.len()
        invariant
            i <= v.len(),
            forall|j: int| 0 <= j < i ==> views(v@)[j] != s@,
        decreases v.len() - i,
    {
        if same(v[i].as_str(), s) {
            assert(views(v@)[i as int] == s@);
            return true;
        }
        i += 1;
    }
    false
}

/// A copy of an optional string.
pub fn copy_option(o: &Option<String>) -> (r: Option<String>)
    ensures
        r == *o,
{
    match o {
        Some(s) => Some(s.clone()),
        None => None,
    }
}

/// The view of an optional string.
pub open spec fn option_view(o: Option<String>) -> Option<Seq<char>> {
    match o {
        Some(s) => Some(s@),
        None => None,
    }
}

/// The parts with white space trimmed, without those that are then empty.
pub open spec fn filled(parts: Seq<Seq<char>>) -> Seq<Seq<char>>
    decreases parts.len(),
{
    if parts.len() == 0 {
        Seq::empty()
    } else {
        let r = filled(parts.drop_last());
        let t = trimmed(parts.last());
        if t.len() > 0 {
            r.push(t)
        } else {
            r
        }
    }
}

/// The comma-separated items of `s`, trimmed, without the empty ones.
pub open spec fn comma_items(s: Seq<char>) -> Seq<Seq<char>> {
    filled(split_at_char(s, ','))
}

/// The comma-separated items of `s`, trimmed, without the empty ones.
pub fn split_commas(s: &str) -> (r: Vec<String>)
    ensures
        views(r@) == comma_items(s@),
{
    let parts = split(s, ',');
    let mut out: Vec<String> = Vec::new();
    let mut i: usize = 0;
    assert(views(out@) =~= filled(views(parts@).take(0)));
    while i < parts.len()
        invariant
            i <= parts.len(),
            views(out@) == filled(views(parts@).take(i as int)),
        decreases parts.len() - i,
    {
        let t = trim(parts[i].as_str());
        proof {
            let p = views(parts@).take(i + 1);
            assert(p.drop_last() =~= views(parts@).take(i as int));
            assert(p.last() == parts[i as int]@);
        }
        if !t.is_empty() {
            let ghost before = views(out@);
            out.push(t.to_string());
            assert(views(out@) =~= before.push(t@));
        }
        i += 1;
    }
    assert(views(parts@).take(i as int) =~= views(parts@));
    out
}

/// The number up to `usize::MAX` that `s` writes.
pub open spec fn size_in(s: Seq<char>) -> Option<usize> {
    match number_in(s, usize::MAX as nat) {
        Some(n) => Some(n as usize),
        None => None,
    }
}

/// The number up to `usize::MAX` that `s` writes.
pub fn parse_usize(s: &str) -> (r: Option<usize>)
    ensures
        r == size_in(s@),
{
    match parse_number(s, usize::MAX as u64) {
        Some(n) => Some(n as usize),
        None => None,
    }
}

/// The number up to `u64::MAX` that `s` writes.
pub open spec fn u64_in(s: Seq<char>) -> Option<u64> {
    match number_in(s, u64::MAX as nat) {
        Some(n) => Some(n as u64),
        None => None,
    }
}

/// The number up to `u64::MAX` that `s` writes.
pub fn parse_u64(s: &str) -> (r: Option<u64>)
    ensures
        r == u64_in(s@),
{
    parse_number(s, u64::MAX)
}

/// Appends copies of `items` to `v`.
pub fn extend(v: &mut Vec<String>, items: &Vec<String>)
    ensures
        final(v)@ == old(v)@ + items@,
        views(final(v)@) == views(old(v)@) + views(items@),
{
    let mut i: usize = 0;
    assert(v@ =~= old(v)@ + items@.take(0));
    while i < items.len()
        invariant
            i <= items.len(),
            v@ == old(v)@ + items@.take(i as int),
        decreases items.len() - i,
    {
        v.push(items[i].clone());
        i += 1;
        assert(v@ =~= old(v)@ + items@.take(i as int));
    }
    assert(items@.take(i as int) =~= items@);
    assert(views(v@) =~= views(old(v)@) + views(items@));
}

/// The number of bytes of `s` in UTF-8.
pub open spec fn size(s: Seq<char>) -> nat {
    vstd::utf8::encode_utf8(s).len()
}

/// The number of bytes of `s`.
pub fn byte_size(s: &str) -> (r: usize)
    ensures
        r == size(s@),
{
    s.as_bytes().len()
}

/// Byte `n` of `s` starts a character, or is its end.
pub open spec fn boundary(s: Seq<char>, n: int) -> bool {
    vstd::utf8::is_char_boundary(vstd::utf8::encode_utf8(s), n)
}

/// The text of the first `n` bytes of `s`.
pub open spec fn byte_prefix(s: Seq<char>, n: int) -> Seq<char> {
    vstd::utf8::decode_utf8(vstd::utf8::encode_utf8(s).subrange(0, n))
}

/// The text of the first `n` bytes of `s`.
pub fn take_bytes<'a>(s: &'a str, n: usize) -> (r: &'a str)
    requires
        boundary(s@, n as int),
    ensures
        r@ == byte_prefix(s@, n as int),
{
    broadcast use vstd::utf8::encode_utf8_decode_utf8;

    let (a, _) = s.split_at(n);
    a
}

/// The decimal numeral of an integer, with a minus sign below zero.
pub open spec fn signed_decimal(n: int) -> Seq<char> {
    if n < 0 {
        seq!['-'] + decimal((-n) as nat)
    } else {
        decimal(n as nat)
    }
}

/// The decimal numeral of an integer, with a minus sign below zero.
pub fn to_signed_decimal(n: i32) -> (r: String)
    ensures
        r@ == signed_decimal(n as int),
{
    if n < 0 {
        let mut out = String::new();
        out.push('-');
        let abs: u64 = (0 - n as i64) as u64;
        out.append(to_decimal(abs).as_str());
        assert(out@ =~= signed_decimal(n as int));
        out
    } else {
        to_decimal(n as u64)
    }
}

/// The parts that are not empty.
pub open spec fn nonempty(parts: Seq<Seq<char>>) -> Seq<Seq<char>>
    decreases parts.len(),
{
    if parts.len() == 0 {
        Seq::empty()
    } else {
        let r = nonempty(parts.drop_last());
        if parts.last().len() > 0 {
            r.push(parts.last())
        } else {
            r
        }
    }
}

/// The parts of `s` between the occurrences of `c` that are not empty.
pub fn split_nonempty(s: &str, c: char) -> (r: Vec<String>)
    ensures
        views(r@) == nonempty(split_at_char(s@, c)),
{
    let parts = split(s, c);
    let mut out: Vec<String> = Vec::new();
    let mut i: usize = 0;
    let ghost all = views(parts@);
    assert(views(out@) =~= nonempty(all.take(0)));
    while i < parts.len()
        invariant
            i <= parts.len(),
            all == views(parts@),
            views(out@) == nonempty(all.take(i as int)),
        decreases parts.len() - i,
    {
        let ghost before = views(out@);
        assert(all.take(i + 1).drop_last() =~= all.take(i as int));
        assert(all.take(i + 1).last() == parts[i as int]@);
        if !parts[i].as_str().is_empty() {
            out.push(parts[i].clone());
            assert(views(out@) =~= before.push(parts[i as int]@));
        }
        i += 1;
    }
    assert(all.take(i as int) =~= all);
    out
}

/// Whether two lists hold the same strings in the same order.
pub fn same_list(a: &Vec<String>, b: &Vec<String>) -> (r: bool)
    ensures
        r == (views(a@) == views(b@)),
{
    if a.len() != b.len() {
        assert(views(a@).len() != views(b@).len());
        return false;
    }
    let mut i: usize = 0;
    while i < a.len()
        invariant
            i <= a.len(),
            a.len() == b.len(),
            forall|j: int| 0 <= j < i ==> views(a@)[j] == views(b@)[j],
        decreases a.len() - i,
    {
        if !same(a[i].as_str(), b[i].as_str()) {
            assert(views(a@)[i as int] != views(b@)[i as int]);
            return false;
        }
        i += 1;
    }
    assert(views(a@) =~= views(b@));
    true
}

/// Whether two optional strings are the same.
pub fn same_option(a: &Option<String>, b: &Option<String>) -> (r: bool)
    ensures
        r == (option_view(*a) == option_view(*b)),
{
    match (a, b) {
        (Some(x), Some(y)) => same(x.as_str(), y.as_str()),
        (None, None) => true,
        _ => false,
    }
}

/// The parts of `s` between the occurrences of `c`, at most `n` of them: the last holds
/// the rest.
pub open spec fn split_at_most(s: Seq<char>, c: char, n: nat) -> Seq<Seq<char>>
    decreases n,
{
    if n <= 1 {
        seq![s]
    } else {
        match split_pair(s, c) {
            Some((a, b)) => seq![a] + split_at_most(b, c, (n - 1) as nat),
            None => seq![s],
        }
    }
}

/// The parts of `s` between the occurrences of `c`, at most `n` of them.
pub fn splitn(s: &str, c: char, n: usize) -> (r: Vec<String>)
    ensures
        views(r@) == split_at_most(s@, c, n as nat),
{
    let mut out: Vec<String> = Vec::new();
    let mut rest = s;
    let mut left: usize = n;
    assert(views(out@) + split_at_most(rest@, c, left as nat) =~= split_at_most(
        s@,
        c,
        n as nat,
    ));
    while left > 1
        invariant_except_break
            views(out@) + split_at_most(rest@, c, left as nat) == split_at_most(s@, c, n as nat),
        ensures
            views(out@) + seq![rest@] == split_at_most(s@, c, n as nat),
        decreases left,
    {
        let ghost before = views(out@);
        match split_once(rest, c) {
            Some((a, b)) => {
                out.push(a.to_string());
                left -= 1;
                proof {
                    let more = split_at_most(b@, c, left as nat);
                    assert(views(out@) =~= before.push(a@));
                    assert(before + (seq![a@] + more) =~= views(out@) + more);
                }
                rest = b;
            },
            None => {
                break;
            },
        }
    }
    let ghost before = views(out@);
    out.push(rest.to_string());
    assert(views(out@) =~= before + seq![rest@]);
    out
}

/// A word that agrees to a question: `y` or `yes`, in any case.
pub open spec fn agrees(line: Seq<char>) -> bool {
    let t = lowered(trimmed(line));
    t == "y"@ || t == "yes"@
}

/// Whether a line agrees to a question.
pub fn is_yes(line: &str) -> (r: bool)
    ensures
        r == agrees(line@),
{
    let t = to_lower(trim(line));
    same(t.as_str(), "y") || same(t.as_str(), "yes")
}

} // verus!
