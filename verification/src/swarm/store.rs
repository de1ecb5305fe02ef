//! The task queue.

use crate::text;
use vstd::prelude::*;

verus! {

/// A task that a human reviews.
pub struct Task {
    pub id: String,
    pub title: String,
    pub description: String,
    pub body: String,
    pub tags: String,
    pub status: String,
    pub source: String,
    pub created: String,
    pub updated: String,
}

/// What a [`Task`] says.
#[verifier::ext_equal]
pub struct TaskView {
    pub id: Seq<char>,
    pub title: Seq<char>,
    pub description: Seq<char>,
    pub body: Seq<char>,
    pub tags: Seq<char>,
    pub status: Seq<char>,
    pub source: Seq<char>,
    pub created: Seq<char>,
    pub updated: Seq<char>,
}

impl View for Task {
    type V = TaskView;

    open spec fn view(&self) -> TaskView {
        TaskView {
            id: self.id@,
            title: self.title@,
            description: self.description@,
            body: self.body@,
            tags: self.tags@,
            status: self.status@,
            source: self.source@,
            created: self.created@,
            updated: self.updated@,
        }
    }
}

/// An ASCII letter or digit.
pub open spec fn alphanumeric(c: char) -> bool {
    ('a' <= c <= 'z') || ('A' <= c <= 'Z') || ('0' <= c <= '9')
}

/// A slug with one more character: letters and digits in lower case, and a single dash
/// for a run of anything else.
pub open spec fn slug_step(out: Seq<char>, c: char) -> Seq<char> {
    if alphanumeric(c) {
        out.push(text::lower_char(c))
    } else if out.len() > 0 && out.last() != '-' {
        out.push('-')
    } else {
        out
    }
}

/// The slug of a text before its ends are trimmed.
pub open spec fn raw_slug(s: Seq<char>) -> Seq<char>
    decreases s.len(),
{
    if s.len() == 0 {
        Seq::empty()
    } else {
        slug_step(raw_slug(s.drop_last()), s.last())
    }
}

/// The slug of a text; `task` where nothing is left of it.
pub open spec fn slug(s: Seq<char>) -> Seq<char> {
    let t = text::trimmed_char(raw_slug(s), '-');
    if t.len() == 0 {
        "task"@
    } else {
        t
    }
}

fn is_alphanumeric(c: char) -> (r: bool)
    ensures
        r == alphanumeric(c),
{
    ('a' <= c && c <= 'z') || ('A' <= c && c <= 'Z') || ('0' <= c && c <= '9')
}

/// The slug of a text: what an id is made of.
pub fn slugify(s: &str) -> (r: String)
    ensures
        r@ == slug(s@),
{
    let cs = text::chars_of(s);
    let mut out = String::new();
    let mut prev_dash = false;
    let mut any = false;
    let mut i: usize = 0;
    while i < cs.len()
        invariant
            i <= cs.len(),
            cs@ == s@,
            out@ == raw_slug(s@.take(i as int)),
            any == (out@.len() > 0),
            prev_dash == (out@.len() > 0 && out@.last() == '-'),
        decreases cs.len() - i,
    {
        let c = cs[i];
        assert(s@.take(i + 1).drop_last() =~= s@.take(i as int));
        if is_alphanumeric(c) {
            let l = text::lower(c);
            assert(l != '-');
            out.push(l);
            prev_dash = false;
            any = true;
        } else if !prev_dash && any {
            out.push('-');
            prev_dash = true;
        }
        i += 1;
    }
    assert(s@.take(i as int) =~= s@);
    let t = text::trim_char(out.as_str(), '-');
    if t.is_empty() {
        "task".to_string()
    } else {
        t.to_string()
    }
}

/// The id of something with this title, made at this time.
pub open spec fn stamped(title: Seq<char>, stamp: Seq<char>) -> Seq<char> {
    slug(title) + "-"@ + stamp
}

/// The id of something with this title, made at this time.
pub fn stamped_id(title: &str, stamp: &str) -> (r: String)
    ensures
        r@ == stamped(title@, stamp@),
{
    let mut out = slugify(title);
    out.append("-");
    out.append(stamp);
    out
}

/// A task as it is put in the queue at the time `now`, which `stamp` writes for its id.
pub fn new_task(
    title: &str,
    description: &str,
    tags: &str,
    body: &str,
    now: &str,
    stamp: &str,
) -> (r: Task)
    ensures
        r@ == (TaskView {
            id: stamped(title@, stamp@),
            title: title@,
            description: description@,
            body: body@,
            tags: tags@,
            status: "proposed"@,
            source: "planner"@,
            created: now@,
            updated: now@,
        }),
{
    Task {
        id: stamped_id(title, stamp),
        title: title.to_string(),
        description: description.to_string(),
        body: body.to_string(),
        tags: tags.to_string(),
        status: "proposed".to_string(),
        source: "planner".to_string(),
        created: now.to_string(),
        updated: now.to_string(),
    }
}

/// A status of a task that still waits for something.
pub open spec fn active(status: Seq<char>) -> bool {
    status == "proposed"@ || status == "accepted"@ || status == "implementing"@
}

/// A status of a task that is settled.
pub open spec fn settled(status: Seq<char>) -> bool {
    status == "rejected"@ || status == "implemented"@ || status == "failed"@
}

pub fn is_active(status: &str) -> (r: bool)
    ensures
        r == active(status@),
{
    text::same(status, "proposed") || text::same(status, "accepted") || text::same(
        status,
        "implementing",
    )
}

pub fn is_settled(status: &str) -> (r: bool)
    ensures
        r == settled(status@),
{
    text::same(status, "rejected") || text::same(status, "implemented") || text::same(
        status,
        "failed",
    )
}

/// The outcome of a change that touched `n` records: there must have been one.
pub fn changed(n: usize, what: &str, id: &str) -> (r: Result<(), String>)
    ensures
        r is Ok <==> n > 0,
        r matches Err(e) ==> e@ == what@ + " `"@ + id@ + "` not found"@,
{
    if n == 0 {
        let mut m = what.to_string();
        m.append(" `");
        m.append(id);
        m.append("` not found");
        Err(m)
    } else {
        Ok(())
    }
}

/// A character of a slug.
pub open spec fn slug_char(c: char) -> bool {
    ('a' <= c <= 'z') || ('0' <= c <= '9') || c == '-'
}

/// A text that is its own slug: not empty, of slug characters, with no dash at an end
/// and no two in a row.
pub open spec fn slug_like(s: Seq<char>) -> bool {
    &&& s.len() > 0
    &&& s[0] != '-'
    &&& s.last() != '-'
    &&& forall|i: int| 0 <= i < s.len() ==> slug_char(#[trigger] s[i])
    &&& forall|i: int| 0 <= i < s.len() - 1 && s[i] == '-' ==> #[trigger] s[i + 1] != '-'
}

proof fn lemma_raw_slug(s: Seq<char>)
    ensures
        ({
            let r = raw_slug(s);
            &&& r.len() > 0 ==> r[0] != '-'
            &&& forall|i: int| 0 <= i < r.len() ==> slug_char(#[trigger] r[i])
            &&& forall|i: int| 0 <= i < r.len() - 1 && r[i] == '-' ==> #[trigger] r[i + 1] != '-'
        }),
    decreases s.len(),
{
    if s.len() > 0 {
        lemma_raw_slug(s.drop_last());
        let before = raw_slug(s.drop_last());
        let r = raw_slug(s);
        let c = s.last();
        assert(alphanumeric(c) ==> slug_char(text::lower_char(c)) && text::lower_char(c) != '-');
        assert forall|i: int| 0 <= i < r.len() implies slug_char(#[trigger] r[i]) by {
            if i < before.len() {
                assert(r[i] == before[i]);
            }
        }
        assert forall|i: int| 0 <= i < r.len() - 1 && r[i] == '-' implies #[trigger] r[i + 1]
            != '-' by {
            if i + 1 < before.len() {
                assert(r[i] == before[i] && r[i + 1] == before[i + 1]);
            }
        }
    }
}

/// A slug is made of lower-case letters, digits and single dashes between them.
pub proof fn law_slug_shape(s: Seq<char>)
    ensures
        slug_like(slug(s)),
{
    let r = raw_slug(s);
    lemma_raw_slug(s);
    reveal_strlit("task");
    assert(text::ltrim_char(r, '-') == r);
    if r.len() > 0 && r.last() == '-' {
        let t = r.drop_last();
        assert(r.len() > 1);
        assert(r[r.len() - 2] != '-') by {
            if r[r.len() - 2] == '-' {
                assert(r[(r.len() - 2) + 1] != '-');
            }
        }
        assert(t.last() != '-');
        assert(text::rtrim_char(t, '-') == t);
        assert(slug(s) == t);
        assert forall|i: int| 0 <= i < t.len() implies slug_char(#[trigger] t[i]) by {
            assert(t[i] == r[i]);
        }
        assert forall|i: int| 0 <= i < t.len() - 1 && t[i] == '-' implies #[trigger] t[i + 1]
            != '-' by {
            assert(t[i] == r[i] && t[i + 1] == r[i + 1]);
        }
    } else if r.len() > 0 {
        assert(text::rtrim_char(r, '-') == r);
        assert(slug(s) == r);
    } else {
        assert(text::rtrim_char(r, '-') == r);
        assert(slug(s) == "task"@);
    }
}

proof fn lemma_raw_slug_fixed(s: Seq<char>)
    requires
        s.len() > 0 ==> s[0] != '-',
        forall|i: int| 0 <= i < s.len() ==> slug_char(#[trigger] s[i]),
        forall|i: int| 0 <= i < s.len() - 1 && s[i] == '-' ==> #[trigger] s[i + 1] != '-',
    ensures
        raw_slug(s) == s,
    decreases s.len(),
{
    if s.len() > 0 {
        let t = s.drop_last();
        assert forall|i: int| 0 <= i < t.len() implies slug_char(#[trigger] t[i]) by {
            assert(t[i] == s[i]);
        }
        assert forall|i: int| 0 <= i < t.len() - 1 && t[i] == '-' implies #[trigger] t[i + 1]
            != '-' by {
            assert(t[i] == s[i] && t[i + 1] == s[i + 1]);
        }
        lemma_raw_slug_fixed(t);
        let c = s.last();
        assert(slug_char(s[s.len() - 1]));
        if c == '-' {
            assert(s.len() > 1);
            if t.last() == '-' {
                assert(s[(s.len() - 2) + 1] != '-');
            }
        }
        assert(t.push(c) =~= s);
    } else {
        assert(s =~= Seq::<char>::empty());
    }
}

/// The slug of a slug is itself.
pub proof fn law_slug_idempotent(s: Seq<char>)
    ensures
        slug(slug(s)) == slug(s),
{
    law_slug_shape(s);
    let t = slug(s);
    lemma_raw_slug_fixed(t);
    assert(text::ltrim_char(t, '-') == t);
    assert(text::rtrim_char(t, '-') == t);
}

/// No status is both open and settled, and a new task is open.
pub proof fn law_statuses_are_apart(status: Seq<char>)
    ensures
        !(active(status) && settled(status)),
        active("proposed"@),
{
    reveal_strlit("proposed");
    reveal_strlit("accepted");
    reveal_strlit("implementing");
    reveal_strlit("rejected");
    reveal_strlit("implemented");
    reveal_strlit("failed");
    assert("proposed"@[0] == 'p' && "accepted"@[0] == 'a' && "rejected"@[0] == 'r');
    assert("implementing"@.len() == 12 && "implemented"@.len() == 11 && "failed"@.len() == 6);
    assert("proposed"@.len() == 8 && "accepted"@.len() == 8 && "rejected"@.len() == 8);
}

/// The letters and digits of a text, in lower case and in order.
pub open spec fn letters(s: Seq<char>) -> Seq<char>
    decreases s.len(),
{
    if s.len() == 0 {
        Seq::empty()
    } else if alphanumeric(s.last()) {
        letters(s.drop_last()).push(text::lower_char(s.last()))
    } else {
        letters(s.drop_last())
    }
}

proof fn lemma_letters(s: Seq<char>)
    ensures
        letters(raw_slug(s)) == letters(s),
    decreases s.len(),
{
    if s.len() > 0 {
        let c = s.last();
        lemma_letters(s.drop_last());
        let before = raw_slug(s.drop_last());
        if alphanumeric(c) {
            let l = text::lower_char(c);
            assert(alphanumeric(l) && text::lower_char(l) == l);
            assert(before.push(l).drop_last() =~= before);
        } else {
            assert(before.push('-').drop_last() =~= before);
        }
    }
}

proof fn lemma_some_letters(s: Seq<char>)
    requires
        s.len() > 0 && alphanumeric(s[0]),
    ensures
        letters(s).len() > 0,
    decreases s.len(),
{
    if s.len() > 1 {
        lemma_some_letters(s.drop_last());
    }
}

/// A slug keeps all letters and digits of the text, in order; it is `task` where there are none.
pub proof fn law_slug_keeps_the_letters(s: Seq<char>)
    ensures
        letters(s).len() > 0 ==> letters(slug(s)) == letters(s),
        letters(s).len() == 0 ==> slug(s) == "task"@,
{
    let r = raw_slug(s);
    lemma_letters(s);
    lemma_raw_slug(s);
    assert(text::ltrim_char(r, '-') == r);
    if r.len() > 0 {
        assert(slug_char(r[0]));
        lemma_some_letters(r);
        if r.last() == '-' {
            let t = r.drop_last();
            assert(r.len() > 1);
            assert(r[r.len() - 2] != '-') by {
                if r[r.len() - 2] == '-' {
                    assert(r[(r.len() - 2) + 1] != '-');
                }
            }
            assert(text::rtrim_char(t, '-') == t);
            assert(slug(s) == t);
            assert(letters(r) == letters(t));
        } else {
            assert(text::rtrim_char(r, '-') == r);
            assert(slug(s) == r);
        }
    } else {
        assert(text::rtrim_char(r, '-') == r);
    }
}

/// An id ends in the time that it was made at, so that equal titles get different ids.
pub proof fn law_ids_are_apart(title: Seq<char>, a: Seq<char>, b: Seq<char>)
    ensures
        text::finishes_with(stamped(title, a), a),
        text::begins_with(stamped(title, a), slug(title)),
        a != b ==> stamped(title, a) != stamped(title, b),
{
    let x = stamped(title, a);
    let y = stamped(title, b);
    let n = (slug(title) + "-"@).len() as int;
    assert(x.subrange(x.len() - a.len(), x.len() as int) =~= a);
    assert(x.subrange(0, slug(title).len() as int) =~= slug(title));
    assert(x.skip(n) =~= a && y.skip(n) =~= b);
}

/// The statuses that a task can have are told apart as open or settled.
pub proof fn law_statuses(status: Seq<char>)
    ensures
        active("proposed"@) && active("accepted"@) && active("implementing"@),
        settled("rejected"@) && settled("implemented"@) && settled("failed"@),
        status != "proposed"@ && status != "accepted"@ && status != "implementing"@ ==> !active(
            status,
        ),
        status != "rejected"@ && status != "implemented"@ && status != "failed"@ ==> !settled(
            status,
        ),
{
}

} // verus!
