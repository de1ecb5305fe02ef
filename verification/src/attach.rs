//! Files that a message refers to with an at sign.

use crate::text;
use vstd::prelude::*;

verus! {

/// Files by their paths; nothing for one that cannot be read.
pub open spec fn file_in(files: Seq<(Seq<char>, Option<Seq<char>>)>, path: Seq<char>) -> Option<
    Seq<char>,
>
    decreases files.len(),
{
    if files.len() == 0 {
        None
    } else if files[0].0 == path {
        files[0].1
    } else {
        file_in(files.drop_first(), path)
    }
}

/// What stands in a message for a file.
pub open spec fn inlined(path: Seq<char>, contents: Option<Seq<char>>) -> Seq<char> {
    match contents {
        Some(c) => "[File `"@ + path + "`:\n```\n"@ + c + "\n```]"@,
        None => "@"@ + path,
    }
}

/// Where the path ends that starts behind the at sign at the front of `s`.
pub open spec fn path_end(s: Seq<char>) -> int {
    text::word_end(s, 1)
}

/// A message with every at sign and the path behind it replaced by the file's contents;
/// one whose file cannot be read is left as it is.
pub open spec fn expanded(s: Seq<char>, files: Seq<(Seq<char>, Option<Seq<char>>)>) -> Seq<char>
    decreases s.len(),
{
    if s.len() == 0 {
        Seq::empty()
    } else if s[0] == '@' && 1 < path_end(s) <= s.len() {
        let path = s.subrange(1, path_end(s));
        inlined(path, file_in(files, path)) + expanded(s.skip(path_end(s)), files)
    } else {
        seq![s[0]] + expanded(s.drop_first(), files)
    }
}

/// The paths that a message refers to, in order.
pub open spec fn paths_of(s: Seq<char>) -> Seq<Seq<char>>
    decreases s.len(),
{
    if s.len() == 0 {
        Seq::empty()
    } else if s[0] == '@' && 1 < path_end(s) <= s.len() {
        seq![s.subrange(1, path_end(s))] + paths_of(s.skip(path_end(s)))
    } else {
        paths_of(s.drop_first())
    }
}

pub open spec fn file_views(v: Seq<(String, Option<String>)>) -> Seq<
    (Seq<char>, Option<Seq<char>>),
> {
    v.map_values(|f: (String, Option<String>)| (f.0@, text::option_view(f.1)))
}

/// Where the path ends that starts behind the at sign at `i`.
fn end_of_path(cs: &Vec<char>, i: usize) -> (r: usize)
    requires
        i < cs.len(),
    ensures
        r == i + path_end(cs@.skip(i as int)),
        i < r <= cs.len(),
{
    let ghost rest = cs@.skip(i as int);
    let mut j: usize = i + 1;
    while j < cs.len() && !text::is_whitespace(cs[j])
        invariant
            i < j <= cs.len(),
            rest == cs@.skip(i as int),
            path_end(rest) == text::word_end(rest, j - i),
        decreases cs.len() - j,
    {
        assert(rest[j - i] == cs[j as int]);
        j += 1;
    }
    j
}

fn text_of(cs: &Vec<char>, from: usize, to: usize) -> (r: String)
    requires
        from <= to <= cs.len(),
    ensures
        r@ == cs@.subrange(from as int, to as int),
{
    let mut out = String::new();
    let mut i: usize = from;
    while i < to
        invariant
            from <= i <= to <= cs.len(),
            out@ == cs@.subrange(from as int, i as int),
        decreases to - i,
    {
        out.push(cs[i]);
        i += 1;
        assert(out@ =~= cs@.subrange(from as int, i as int));
    }
    out
}

/// The paths that a message refers to, in order.
pub fn at_paths(message: &str) -> (r: Vec<String>)
    ensures
        text::views(r@) == paths_of(message@),
{
    let cs = text::chars_of(message);
    let mut out: Vec<String> = Vec::new();
    let mut i: usize = 0;
    assert(cs@.skip(0) =~= cs@);
    assert(text::views(out@) + paths_of(cs@) =~= paths_of(cs@));
    while i < cs.len()
        invariant
            i <= cs.len(),
            cs@ == message@,
            text::views(out@) + paths_of(cs@.skip(i as int)) == paths_of(message@),
        decreases cs.len() - i,
    {
        let ghost rest = cs@.skip(i as int);
        let ghost before = text::views(out@);
        assert(rest[0] == cs[i as int]);
        let end = end_of_path(&cs, i);
        if cs[i] == '@' && end > i + 1 {
            let path = text_of(&cs, i + 1, end);
            proof {
                assert(path@ =~= rest.subrange(1, path_end(rest)));
                assert(rest.skip(path_end(rest)) =~= cs@.skip(end as int));
                let more = paths_of(cs@.skip(end as int));
                assert(before + (seq![path@] + more) =~= before.push(path@) + more);
            }
            let ghost p = path@;
            out.push(path);
            assert(text::views(out@) =~= before.push(p));
            i = end;
        } else {
            assert(rest.drop_first() =~= cs@.skip(i + 1));
            i += 1;
        }
    }
    assert(cs@.skip(i as int) =~= Seq::<char>::empty());
    assert(text::views(out@) + Seq::<Seq<char>>::empty() =~= text::views(out@));
    out
}

fn find_file<'a>(files: &'a Vec<(String, Option<String>)>, path: &str) -> (r: Option<&'a String>)
    ensures
        file_in(file_views(files@), path@) == match r {
            Some(c) => Some(c@),
            None => None,
        },
{
    let ghost all = file_views(files@);
    let mut i: usize = 0;
    assert(all.skip(0) =~= all);
    while i < files.len()
        invariant
            i <= files.len(),
            all == file_views(files@),
            file_in(all, path@) == file_in(all.skip(i as int), path@),
        decreases files.len() - i,
    {
        assert(all.skip(i as int)[0] == (
            files[i as int].0@,
            text::option_view(files[i as int].1),
        ));
        assert(all.skip(i as int).drop_first() =~= all.skip(i + 1));
        let f = &files[i];
        if text::same(f.0.as_str(), path) {
            return match &f.1 {
                Some(c) => Some(c),
                None => None,
            };
        }
        i += 1;
    }
    None
}

/// Replaces every at sign and the path behind it by the file's contents, given what could
/// be read of the files. One that could not be read is left as it is.
pub fn expand_at_files(message: &str, files: &Vec<(String, Option<String>)>) -> (r: String)
    ensures
        r@ == expanded(message@, file_views(files@)),
{
    let cs = text::chars_of(message);
    let ghost fs = file_views(files@);
    let mut out = String::new();
    let mut i: usize = 0;
    assert(cs@.skip(0) =~= cs@);
    assert(out@ + expanded(cs@, fs) =~= expanded(cs@, fs));
    while i < cs.len()
        invariant
            i <= cs.len(),
            cs@ == message@,
            fs == file_views(files@),
            out@ + expanded(cs@.skip(i as int), fs) == expanded(message@, fs),
        decreases cs.len() - i,
    {
        let ghost rest = cs@.skip(i as int);
        let ghost before = out@;
        assert(rest[0] == cs[i as int]);
        let end = end_of_path(&cs, i);
        if cs[i] == '@' && end > i + 1 {
            let path = text_of(&cs, i + 1, end);
            proof {
                assert(path@ =~= rest.subrange(1, path_end(rest)));
                assert(rest.skip(path_end(rest)) =~= cs@.skip(end as int));
            }
            match find_file(files, path.as_str()) {
                Some(c) => {
                    out.append("[File `");
                    out.append(path.as_str());
                    out.append("`:\n```\n");
                    out.append(c.as_str());
                    out.append("\n```]");
                },
                None => {
                    out.append("@");
                    out.append(path.as_str());
                },
            }
            proof {
                let more = expanded(cs@.skip(end as int), fs);
                let token = inlined(path@, file_in(fs, path@));
                assert(out@ =~= before + token);
                assert(before + (token + more) =~= out@ + more);
            }
            i = end;
        } else {
            out.push(cs[i]);
            proof {
                assert(rest.drop_first() =~= cs@.skip(i + 1));
                let more = expanded(cs@.skip(i + 1), fs);
                assert(before + (seq![rest[0]] + more) =~= out@ + more);
            }
            i += 1;
        }
    }
    assert(cs@.skip(i as int) =~= Seq::<char>::empty());
    assert(out@ + Seq::<char>::empty() =~= out@);
    out
}

/// A message none of whose files can be read is left as it is.
pub proof fn law_unreadable_files_are_left(s: Seq<char>, files: Seq<(Seq<char>, Option<Seq<char>>)>)
    requires
        forall|path: Seq<char>| #[trigger] file_in(files, path) is None,
    ensures
        expanded(s, files) == s,
    decreases s.len(),
{
    reveal_strlit("@");
    if s.len() == 0 {
        assert(s =~= Seq::<char>::empty());
    } else if s[0] == '@' && 1 < path_end(s) <= s.len() {
        let n = path_end(s);
        law_unreadable_files_are_left(s.skip(n), files);
        assert(file_in(files, s.subrange(1, n)) is None);
        assert("@"@ + s.subrange(1, n) + s.skip(n) =~= s);
    } else {
        law_unreadable_files_are_left(s.drop_first(), files);
        assert(seq![s[0]] + s.drop_first() =~= s);
    }
}

/// A message without an at sign is left as it is, whatever files there are.
pub proof fn law_plain_messages_are_left(s: Seq<char>, files: Seq<(Seq<char>, Option<Seq<char>>)>)
    requires
        !s.contains('@'),
    ensures
        expanded(s, files) == s,
        paths_of(s).len() == 0,
    decreases s.len(),
{
    if s.len() == 0 {
        assert(s =~= Seq::<char>::empty());
    } else {
        assert(s[0] != '@') by {
            if s[0] == '@' {
                assert(s.contains('@'));
            }
        }
        let rest = s.drop_first();
        assert(!rest.contains('@')) by {
            if rest.contains('@') {
                let i = choose|i: int| 0 <= i < rest.len() && rest[i] == '@';
                assert(s[i + 1] == '@');
            }
        }
        law_plain_messages_are_left(rest, files);
        assert(seq![s[0]] + rest =~= s);
    }
}

/// A file is put in its place whole: what stands before the at sign is kept, the sign and the
/// path behind it give way to the contents of the file, or stay where it cannot be read, and
/// what follows is treated likewise.
pub proof fn law_files_are_put_in_place(
    a: Seq<char>,
    path: Seq<char>,
    rest: Seq<char>,
    files: Seq<(Seq<char>, Option<Seq<char>>)>,
)
    requires
        !a.contains('@'),
        path.len() > 0,
        forall|i: int| 0 <= i < path.len() ==> !text::white(#[trigger] path[i]),
        rest.len() > 0 ==> text::white(rest[0]),
    ensures
        expanded(a + seq!['@'] + path + rest, files) == a + (match file_in(files, path) {
            Some(c) => "[File `"@ + path + "`:\n```\n"@ + c + "\n```]"@,
            None => seq!['@'] + path,
        }) + expanded(rest, files),
        paths_of(a + seq!['@'] + path + rest) == seq![path] + paths_of(rest),
    decreases a.len(),
{
    reveal_strlit("@");
    assert("@"@ =~= seq!['@']);
    let s = a + seq!['@'] + path + rest;
    if a.len() == 0 {
        let n = 1 + path.len() as int;
        lemma_path_end(s, n);
        assert(s.subrange(1, n) =~= path);
        assert(s.skip(n) =~= rest);
        assert(a + inlined(path, file_in(files, path)) + expanded(rest, files) =~= inlined(
            path,
            file_in(files, path),
        ) + expanded(rest, files));
    } else {
        let b = a.drop_first();
        assert(a[0] != '@') by {
            if a[0] == '@' {
                assert(a.contains('@'));
            }
        }
        assert(!b.contains('@')) by {
            if b.contains('@') {
                let i = choose|i: int| 0 <= i < b.len() && b[i] == '@';
                assert(a[i + 1] == '@');
            }
        }
        law_files_are_put_in_place(b, path, rest, files);
        assert(s.drop_first() =~= b + seq!['@'] + path + rest);
        assert(s[0] == a[0]);
        let mid = match file_in(files, path) {
            Some(c) => "[File `"@ + path + "`:\n```\n"@ + c + "\n```]"@,
            None => seq!['@'] + path,
        };
        assert(seq![a[0]] + (b + mid + expanded(rest, files)) =~= a + mid + expanded(rest, files));
    }
}

proof fn lemma_path_end(s: Seq<char>, n: int)
    requires
        1 <= n <= s.len(),
        forall|i: int| 1 <= i < n ==> !text::white(#[trigger] s[i]),
        n < s.len() ==> text::white(s[n]),
    ensures
        path_end(s) == n,
{
    text::lemma_word_end(s, 1);
    let e = path_end(s);
    if e < n {
        assert(!text::white(s[e]));
    } else if e > n {
        assert(text::white(s[n]));
    }
}

/// An at sign with nothing behind it is left as it is.
pub proof fn law_lone_at_sign(rest: Seq<char>, files: Seq<(Seq<char>, Option<Seq<char>>)>)
    requires
        rest.len() > 0 ==> text::white(rest[0]),
    ensures
        expanded(seq!['@'] + rest, files) == seq!['@'] + expanded(rest, files),
        paths_of(seq!['@'] + rest) == paths_of(rest),
{
    let s = seq!['@'] + rest;
    lemma_path_end(s, 1);
    assert(s.drop_first() =~= rest);
}

/// A file is looked up by its path, the first of several.
pub proof fn law_file_is_looked_up(
    files: Seq<(Seq<char>, Option<Seq<char>>)>,
    i: int,
    path: Seq<char>,
)
    ensures
        0 <= i < files.len() && files[i].0 == path && (forall|j: int|
            0 <= j < i ==> (#[trigger] files[j]).0 != path) ==> file_in(files, path) == files[i].1,
        (forall|j: int| 0 <= j < files.len() ==> (#[trigger] files[j]).0 != path) ==> file_in(
            files,
            path,
        ) is None,
    decreases files.len(),
{
    if files.len() > 0 {
        let rest = files.drop_first();
        law_file_is_looked_up(rest, i - 1, path);
        if 0 < i < files.len() && files[i].0 == path && (forall|j: int|
            0 <= j < i ==> (#[trigger] files[j]).0 != path) {
            assert(files[0].0 != path);
            assert(rest[i - 1] == files[i]);
            assert forall|j: int| 0 <= j < i - 1 implies (#[trigger] rest[j]).0 != path by {
                assert(rest[j] == files[j + 1]);
            }
        }
        if forall|j: int| 0 <= j < files.len() ==> (#[trigger] files[j]).0 != path {
            assert(files[0].0 != path);
            assert forall|j: int| 0 <= j < rest.len() implies (#[trigger] rest[j]).0 != path by {
                assert(rest[j] == files[j + 1]);
            }
        }
    }
}

} // verus!
