//! The run of a plan.

use crate::pairs;
use crate::text;
use crate::text_facts;
use crate::workflow::planner;
use crate::workflow::planner::{ExecutionPlan, Step, StepView};
use crate::workflow::workspace;
use crate::workflow::workspace::WorkspaceManager;
use vstd::prelude::*;

verus! {

/// What stands in a template for the variable `name`.
pub open spec fn placeholder(name: Seq<char>) -> Seq<char> {
    "{{"@ + name + "}}"@
}

fn placeholder_of(name: &str) -> (r: String)
    ensures
        r@ == placeholder(name@),
        r@.len() > 0,
{
    proof {
        reveal_strlit("{{");
    }
    let mut out = "{{".to_string();
    out.append(name);
    out.append("}}");
    out
}

/// A path as one word of a shell command: between single quotes, each quote of its own
/// written outside of them.
pub open spec fn quoted(path: Seq<char>) -> Seq<char> {
    "'"@ + text::replaced(path, "'"@, "'\\''"@) + "'"@
}

fn quote(path: &str) -> (r: String)
    ensures
        r@ == quoted(path@),
{
    proof {
        reveal_strlit("'");
    }
    let mut out = "'".to_string();
    out.append(text::replace(path, "'", "'\\''").as_str());
    out.append("'");
    out
}

/// A command with each variable replaced by the quoted path of its file, in order.
pub open spec fn with_paths(template: Seq<char>, vars: Seq<(Seq<char>, Seq<char>)>) -> Seq<char>
    decreases vars.len(),
{
    if vars.len() == 0 {
        template
    } else {
        let before = with_paths(template, vars.drop_last());
        text::replaced(before, placeholder(vars.last().0), quoted(vars.last().1))
    }
}

/// Replaces each variable in a command by the quoted path of its file, in order.
pub fn resolve_path_vars(template: &str, vars: &Vec<(String, String)>) -> (r: String)
    ensures
        r@ == with_paths(template@, pairs::pair_views(vars@)),
{
    let mut result = template.to_string();
    let ghost all = pairs::pair_views(vars@);
    let mut i: usize = 0;
    assert(all.take(0) =~= Seq::<(Seq<char>, Seq<char>)>::empty());
    while i < vars.len()
        invariant
            i <= vars.len(),
            all == pairs::pair_views(vars@),
            result@ == with_paths(template@, all.take(i as int)),
        decreases vars.len() - i,
    {
        assert(all.take(i + 1).drop_last() =~= all.take(i as int));
        assert(all.take(i + 1).last() == (vars[i as int].0@, vars[i as int].1@));
        let p = placeholder_of(vars[i].0.as_str());
        let q = quote(vars[i].1.as_str());
        result = text::replace(result.as_str(), p.as_str(), q.as_str());
        i += 1;
    }
    assert(all.take(i as int) =~= all);
    result
}

/// A variable with the contents of its file, or why they could not be read.
pub struct Content {
    pub name: String,
    pub text: Result<String, String>,
}

/// What a [`Content`] says.
#[verifier::ext_equal]
pub struct ContentView {
    pub name: Seq<char>,
    pub text: Result<Seq<char>, Seq<char>>,
}

impl View for Content {
    type V = ContentView;

    open spec fn view(&self) -> ContentView {
        ContentView {
            name: self.name@,
            text: match self.text {
                Ok(t) => Ok(t@),
                Err(e) => Err(e@),
            },
        }
    }
}

pub open spec fn content_views(v: Seq<Content>) -> Seq<ContentView> {
    v.map_values(|c: Content| c@)
}

/// A prompt with each variable that occurs in it replaced by the contents of its file, in
/// order; a file that is needed and could not be read is an error.
pub open spec fn with_contents(template: Seq<char>, vars: Seq<ContentView>) -> Result<
    Seq<char>,
    Seq<char>,
>
    decreases vars.len(),
{
    if vars.len() == 0 {
        Ok(template)
    } else {
        match with_contents(template, vars.drop_last()) {
            Err(e) => Err(e),
            Ok(before) => {
                let v = vars.last();
                if text::holds(before, placeholder(v.name)) {
                    match v.text {
                        Ok(t) => Ok(text::replaced(before, placeholder(v.name), t)),
                        Err(e) => Err("failed to read variable '"@ + v.name + "': "@ + e),
                    }
                } else {
                    Ok(before)
                }
            },
        }
    }
}

proof fn lemma_contents_error(template: Seq<char>, vars: Seq<ContentView>, n: int)
    requires
        0 <= n <= vars.len(),
        with_contents(template, vars.take(n)) is Err,
    ensures
        with_contents(template, vars) == with_contents(template, vars.take(n)),
    decreases vars.len() - n,
{
    if n == vars.len() {
        assert(vars.take(n) =~= vars);
    } else {
        assert(vars.take(n + 1).drop_last() =~= vars.take(n));
        lemma_contents_error(template, vars, n + 1);
    }
}

/// Replaces each variable in a prompt by the contents of its file, in order.
pub fn resolve_content_vars(template: &str, vars: &Vec<Content>) -> (r: Result<String, String>)
    ensures
        with_contents(template@, content_views(vars@)) == match r {
            Ok(t) => Ok(t@),
            Err(e) => Err(e@),
        },
{
    let mut result = template.to_string();
    let ghost all = content_views(vars@);
    let mut i: usize = 0;
    assert(all.take(0) =~= Seq::<ContentView>::empty());
    while i < vars.len()
        invariant
            i <= vars.len(),
            all == content_views(vars@),
            with_contents(template@, all.take(i as int)) == Ok::<_, Seq<char>>(result@),
        decreases vars.len() - i,
    {
        assert(all.take(i + 1).drop_last() =~= all.take(i as int));
        assert(all.take(i + 1).last() == vars[i as int]@);
        let p = placeholder_of(vars[i].name.as_str());
        if text::contains(result.as_str(), p.as_str()) {
            match &vars[i].text {
                Ok(t) => {
                    result = text::replace(result.as_str(), p.as_str(), t.as_str());
                },
                Err(e) => {
                    let mut m = "failed to read variable '".to_string();
                    m.append(vars[i].name.as_str());
                    m.append("': ");
                    m.append(e.as_str());
                    proof {
                        lemma_contents_error(template@, all, i + 1);
                    }
                    return Err(m);
                },
            }
        }
        i += 1;
    }
    assert(all.take(i as int) =~= all);
    Ok(result)
}

/// The text that `serde_json` writes for an object of strings, laid out over several
/// lines.
pub uninterp spec fn json_pretty(pairs: Seq<(Seq<char>, Seq<char>)>) -> Seq<char>;

/// Writes an object of strings with `serde_json::to_string_pretty`. The contract claims that
/// the text depends on the pairs alone.
#[verifier::external_body]
fn pretty_object(pairs: &Vec<(String, String)>) -> (r: String)
    ensures
        r@ == json_pretty(pairs::pair_views(pairs@)),
{
    let map: serde_json::Map<String, serde_json::Value> = pairs.iter().map(
        |(k, v)| (k.clone(), serde_json::Value::String(v.clone())),
    ).collect();
    serde_json::to_string_pretty(&serde_json::Value::Object(map)).unwrap_or_default()
}

/// The variables as a JSON object.
pub fn vars_to_json(vars: &Vec<(String, String)>) -> (r: String)
    ensures
        r@ == json_pretty(pairs::pair_views(vars@)),
{
    pretty_object(vars)
}

/// A reply without the thoughts that it opens with.
pub open spec fn without_opening(s: Seq<char>) -> Seq<char> {
    match (text::first_of(s, "<think>"@), text::first_of(s, "</think>"@)) {
        (Some(start), Some(end)) => if start == 0 {
            text::ltrim(s.skip(end + 8))
        } else {
            s
        },
        _ => s,
    }
}

/// A reply without the thoughts that it opens with.
fn skip_opening<'a>(s: &'a str) -> (r: &'a str)
    ensures
        r@ == without_opening(s@),
{
    proof {
        reveal_strlit("</think>");
    }
    match text::find(s, "<think>") {
        Some(start) => match text::find(s, "</think>") {
            Some(end) => {
                if start == 0 {
                    let n = s.unicode_len();
                    assert(end + 8 <= n);
                    text::trim_start(text::skip(s, end + 8))
                } else {
                    s
                }
            },
            None => s,
        },
        None => s,
    }
}

/// A reply without the thoughts that it opens with.
pub fn strip_think(s: &str) -> (r: String)
    ensures
        r@ == without_opening(s@),
{
    skip_opening(s).to_string()
}

/// What is to be done for a step.
pub enum StepAction {
    /// Nothing: an earlier run left its output.
    Cached { name: String },
    /// Run the command once the user agrees.
    Shell { dir: String, name: String, cmd: String },
    /// Ask the model, once the variables of the prompt are filled in.
    Llm { dir: String, prompt: String },
    /// The plan is done.
    Finished,
}

/// What a [`StepAction`] says.
pub enum StepActionView {
    Cached { name: Seq<char> },
    Shell { dir: Seq<char>, name: Seq<char>, cmd: Seq<char> },
    Llm { dir: Seq<char>, prompt: Seq<char> },
    Finished,
}

impl View for StepAction {
    type V = StepActionView;

    open spec fn view(&self) -> StepActionView {
        match self {
            StepAction::Cached { name } => StepActionView::Cached { name: name@ },
            StepAction::Shell { dir, name, cmd } => StepActionView::Shell {
                dir: dir@,
                name: name@,
                cmd: cmd@,
            },
            StepAction::Llm { dir, prompt } => StepActionView::Llm { dir: dir@, prompt: prompt@ },
            StepAction::Finished => StepActionView::Finished,
        }
    }
}

/// The run of a plan: how many steps are done, and the files of the variables so far.
#[verifier::ext_equal]
pub struct ExecutionView {
    pub done: nat,
    pub vars: Seq<(Seq<char>, Seq<char>)>,
}

/// The run after the next step has its output.
pub open spec fn advanced(st: ExecutionView, steps: Seq<StepView>, root: Seq<char>) -> ExecutionView {
    let s = steps[st.done as int];
    ExecutionView {
        done: st.done + 1,
        vars: pairs::with_pair(
            st.vars,
            planner::step_var(s),
            workspace::output_file(root, planner::step_dir(s)),
        ),
    }
}

/// What is to be done for the next step, and the run after that was decided.
pub open spec fn next_action(
    st: ExecutionView,
    steps: Seq<StepView>,
    root: Seq<char>,
    cached: bool,
) -> (ExecutionView, StepActionView) {
    if st.done >= steps.len() {
        (st, StepActionView::Finished)
    } else if cached {
        (
            advanced(st, steps, root),
            StepActionView::Cached { name: planner::step_name(steps[st.done as int]) },
        )
    } else {
        let s = steps[st.done as int];
        (
            st,
            match s {
                StepView::Shell { name, cmd, .. } => StepActionView::Shell {
                    dir: planner::step_dir(s),
                    name,
                    cmd: with_paths(cmd, st.vars),
                },
                StepView::Llm { prompt, .. } => StepActionView::Llm {
                    dir: planner::step_dir(s),
                    prompt,
                },
            },
        )
    }
}

/// The run of a plan.
pub struct Execution {
    done: usize,
    vars: Vec<(String, String)>,
}

impl View for Execution {
    type V = ExecutionView;

    closed spec fn view(&self) -> ExecutionView {
        ExecutionView { done: self.done as nat, vars: pairs::pair_views(self.vars@) }
    }
}

impl Execution {
    pub fn new() -> (r: Execution)
        ensures
            r@ == (ExecutionView { done: 0, vars: Seq::empty() }),
    {
        let r = Execution { done: 0, vars: Vec::new() };
        assert(r@.vars =~= Seq::<(Seq<char>, Seq<char>)>::empty());
        r
    }

    /// The variables and the files with their contents.
    pub fn vars(&self) -> (r: &Vec<(String, String)>)
        ensures
            pairs::pair_views(r@) == self@.vars,
    {
        &self.vars
    }

    /// The directory of the next step, unless the plan is done.
    pub fn next_dir(&self, plan: &ExecutionPlan) -> (r: Option<String>)
        ensures
            match r {
                Some(d) => self@.done < plan.steps.len() && d@ == planner::step_dir(
                    planner::step_views(plan.steps@)[self@.done as int],
                ),
                None => self@.done >= plan.steps.len(),
            },
    {
        if self.done < plan.steps.len() {
            Some(plan.steps[self.done].dir_name())
        } else {
            None
        }
    }

    /// Says what is to be done for the next step; `cached` says whether an earlier run left
    /// its output.
    pub fn next(&mut self, plan: &ExecutionPlan, ws: &WorkspaceManager, cached: bool) -> (r:
        StepAction)
        ensures
            (final(self)@, r@) == next_action(
                old(self)@,
                planner::step_views(plan.steps@),
                ws@,
                cached,
            ),
    {
        if self.done >= plan.steps.len() {
            return StepAction::Finished;
        }
        let step = &plan.steps[self.done];
        if cached {
            let name = step.name().to_string();
            self.completed(plan, ws);
            return StepAction::Cached { name };
        }
        let dir = step.dir_name();
        match step {
            Step::Shell { name, cmd, .. } => StepAction::Shell {
                dir,
                name: name.clone(),
                cmd: resolve_path_vars(cmd.as_str(), &self.vars),
            },
            Step::Llm { prompt, .. } => StepAction::Llm { dir, prompt: prompt.clone() },
        }
    }

    /// The next step has its output.
    pub fn completed(&mut self, plan: &ExecutionPlan, ws: &WorkspaceManager)
        requires
            old(self)@.done < plan.steps.len(),
        ensures
            final(self)@ == advanced(old(self)@, planner::step_views(plan.steps@), ws@),
    {
        let step = &plan.steps[self.done];
        let path = ws.output_path(step.dir_name().as_str());
        let name = step.output_var().to_string();
        pairs::set_pair(&mut self.vars, name, path);
        self.done = self.done + 1;
    }
}

/// The exit code of a command; -1 for one that a signal ended.
pub open spec fn code_of(code: Option<i32>) -> int {
    match code {
        Some(c) => c as int,
        None => -1,
    }
}

/// The log of a command.
pub open spec fn shell_log(code: Option<i32>, stderr: Seq<char>) -> Seq<char> {
    "exit: "@ + text::signed_decimal(code_of(code)) + "\nstderr:\n"@ + text::rtrim(stderr)
}

/// Why a step failed.
pub open spec fn shell_failure(name: Seq<char>, code: Option<i32>, stderr: Seq<char>) -> Seq<char> {
    "step '"@ + name + "' failed (exit "@ + text::signed_decimal(code_of(code)) + ")\nstderr: "@
        + text::rtrim(stderr)
}

fn number_of(code: Option<i32>) -> (r: String)
    ensures
        r@ == text::signed_decimal(code_of(code)),
{
    let c: i32 = match code {
        Some(c) => c,
        None => -1,
    };
    text::to_signed_decimal(c)
}

/// The log and the outcome of a command that ended.
pub fn shell_result(name: &str, stdout: String, stderr: &str, success: bool, code: Option<i32>) -> (r:
    (String, Result<String, String>))
    ensures
        r.0@ == shell_log(code, stderr@),
        success ==> (r.1 matches Ok(t) && t@ == stdout@),
        !success ==> (r.1 matches Err(e) && e@ == shell_failure(name@, code, stderr@)),
{
    let mut log = "exit: ".to_string();
    log.append(number_of(code).as_str());
    log.append("\nstderr:\n");
    log.append(text::trim_end(stderr));
    if success {
        (log, Ok(stdout))
    } else {
        let mut e = "step '".to_string();
        e.append(name);
        e.append("' failed (exit ");
        e.append(number_of(code).as_str());
        e.append(")\nstderr: ");
        e.append(text::trim_end(stderr));
        (log, Err(e))
    }
}

/// Whether the user agreed to run a command.
pub fn confirm_step(name: &str, line: &str) -> (r: Result<(), String>)
    ensures
        r is Ok <==> text::agrees(line@),
        r matches Err(e) ==> e@ == "step '"@ + name@ + "' not confirmed — aborting"@,
{
    if text::is_yes(line) {
        Ok(())
    } else {
        let mut m = "step '".to_string();
        m.append(name);
        m.append("' not confirmed — aborting");
        Err(m)
    }
}

/// The log of a model's reply: how many tokens it had, about.
pub fn llm_log(reply: &str) -> (r: String)
    ensures
        r@ == "~"@ + text::decimal(text::size(reply@) / 4) + " tokens"@,
{
    let n = text::byte_size(reply) / 4;
    let mut out = "~".to_string();
    out.append(text::to_decimal(n as u64).as_str());
    out.append(" tokens");
    out
}

/// The word that a shell reads where every part of it is between single quotes or is one
/// character after a backslash; nothing where it is not written so.
pub open spec fn shell_word(s: Seq<char>) -> Option<Seq<char>>
    decreases s.len(),
{
    if s.len() == 0 {
        Some(Seq::empty())
    } else if s[0] == '\'' {
        in_quotes(s.drop_first())
    } else if s[0] == '\\' && s.len() > 1 {
        match shell_word(s.skip(2)) {
            Some(w) => Some(seq![s[1]] + w),
            None => None,
        }
    } else {
        None
    }
}

/// The word that a shell reads from inside single quotes on.
pub open spec fn in_quotes(s: Seq<char>) -> Option<Seq<char>>
    decreases s.len(),
{
    if s.len() == 0 {
        None
    } else if s[0] == '\'' {
        shell_word(s.drop_first())
    } else {
        match in_quotes(s.drop_first()) {
            Some(w) => Some(seq![s[0]] + w),
            None => None,
        }
    }
}

/// How a replacement of a single character goes on after the first character.
proof fn lemma_replaced_step(s: Seq<char>, c: char, p: Seq<char>, to: Seq<char>)
    requires
        s.len() > 0,
        p == seq![c],
    ensures
        s[0] == c ==> text::replaced(s, p, to) == to + text::replaced(s.drop_first(), p, to),
        s[0] != c ==> text::replaced(s, p, to) == seq![s[0]] + text::replaced(
            s.drop_first(),
            p,
            to,
        ),
{
    let rest = s.drop_first();
    text_facts::lemma_find(s, p, 0);
    text_facts::lemma_find(rest, p, 0);
    if s[0] == c {
        assert(s.subrange(0, 1) =~= p);
        assert(text::occurs_at(s, p, 0));
        assert(text::first_of(s, p) == Some(0int));
        assert(s.skip(1) =~= rest);
        assert(s.take(0) + to + text::replaced(rest, p, to) =~= to + text::replaced(rest, p, to));
    } else {
        assert(!text::occurs_at(s, p, 0)) by {
            if text::occurs_at(s, p, 0) {
                assert(s.subrange(0, 1)[0] == s[0]);
            }
        }
        match text::first_of(rest, p) {
            Some(i) => {
                assert(rest.subrange(i, i + 1) =~= s.subrange(i + 1, i + 2));
                assert(text::occurs_at(s, p, i + 1));
                assert forall|j: int| 0 <= j < i + 1 implies !#[trigger] text::occurs_at(
                    s,
                    p,
                    j,
                ) by {
                    if j > 0 && text::occurs_at(s, p, j) {
                        assert(rest.subrange(j - 1, j) =~= s.subrange(j, j + 1));
                        assert(text::occurs_at(rest, p, j - 1));
                    }
                }
                text_facts::lemma_find_is(s, p, 0, i + 1);
                assert(s.take(i + 1) =~= seq![s[0]] + rest.take(i));
                assert(s.skip(i + 2) =~= rest.skip(i + 1));
                let tail = text::replaced(rest.skip(i + 1), p, to);
                assert((seq![s[0]] + rest.take(i)) + to + tail =~= seq![s[0]] + (rest.take(i) + to
                    + tail));
            },
            None => {
                if let Some(i) = text::first_of(s, p) {
                    assert(i > 0);
                    assert(rest.subrange(i - 1, i) =~= s.subrange(i, i + 1));
                    assert(text::occurs_at(rest, p, i - 1));
                }
                assert(s =~= seq![s[0]] + rest);
            },
        }
    }
}

proof fn lemma_quoted_word(path: Seq<char>)
    ensures
        in_quotes(text::replaced(path, "'"@, "'\\''"@) + "'"@) == Some(path),
    decreases path.len(),
{
    reveal_strlit("'");
    reveal_strlit("'\\''");
    let q = seq!['\''];
    assert("'"@ =~= q);
    let e = "'\\''"@;
    let r = text::replaced(path, "'"@, e);
    if path.len() == 0 {
        text_facts::lemma_find(path, "'"@, 0);
        assert(r == path);
        let s = r + "'"@;
        assert(s[0] == '\'');
        assert(s.drop_first() =~= Seq::<char>::empty());
        assert(path =~= Seq::<char>::empty());
        assert(shell_word(Seq::<char>::empty()) == Some(Seq::<char>::empty()));
        assert(in_quotes(s) == shell_word(s.drop_first()));
    } else {
        let rest = path.drop_first();
        let t = text::replaced(rest, "'"@, e);
        lemma_replaced_step(path, '\'', "'"@, e);
        lemma_quoted_word(rest);
        let tail = t + "'"@;
        let s = r + "'"@;
        if path[0] == '\'' {
            assert(s =~= e + tail);
            assert(s[0] == '\'');
            let a = s.drop_first();
            assert(a[0] == '\\' && a[1] == '\'');
            let b = a.skip(2);
            assert(b[0] == '\'');
            assert(b.drop_first() =~= tail);
            assert(shell_word(b) == in_quotes(tail));
            assert(shell_word(a) == Some(seq![a[1]] + rest));
            assert(seq!['\''] + rest =~= path);
            assert(in_quotes(s) == shell_word(a));
        } else {
            assert(s =~= seq![path[0]] + tail);
            assert(s.drop_first() =~= tail);
            assert(seq![path[0]] + rest =~= path);
            assert(s[0] == path[0]);
            assert(in_quotes(s) == Some(seq![s[0]] + rest));
        }
    }
}

/// A shell reads a quoted path as one word: the path, whatever characters it holds.
pub proof fn law_quoted_path_is_one_word(path: Seq<char>)
    ensures
        shell_word(quoted(path)) == Some(path),
{
    reveal_strlit("'");
    lemma_quoted_word(path);
    let s = quoted(path);
    let tail = text::replaced(path, "'"@, "'\\''"@) + "'"@;
    assert(s =~= "'"@ + tail);
    assert(s[0] == '\'');
    assert(s.drop_first() =~= tail);
}

/// A command without any variable in it is left as it is, and so is a prompt, even where
/// the files of the variables cannot be read.
pub proof fn law_plain_templates_are_kept(
    template: Seq<char>,
    vars: Seq<(Seq<char>, Seq<char>)>,
    contents: Seq<ContentView>,
)
    requires
        forall|i: int| 0 <= i < vars.len() ==> !text::holds(template, placeholder(#[trigger] vars[i].0)),
        forall|i: int|
            0 <= i < contents.len() ==> !text::holds(
                template,
                placeholder((#[trigger] contents[i]).name),
            ),
    ensures
        with_paths(template, vars) == template,
        with_contents(template, contents) == Ok::<_, Seq<char>>(template),
    decreases vars.len() + contents.len(),
{
    if vars.len() > 0 {
        let rest = vars.drop_last();
        assert forall|i: int| 0 <= i < rest.len() implies !text::holds(
            template,
            placeholder(#[trigger] rest[i].0),
        ) by {
            assert(rest[i] == vars[i]);
        }
        law_plain_templates_are_kept(template, rest, contents);
        assert(!text::holds(template, placeholder(vars[vars.len() - 1].0)));
    } else if contents.len() > 0 {
        let rest = contents.drop_last();
        assert forall|i: int| 0 <= i < rest.len() implies !text::holds(
            template,
            placeholder((#[trigger] rest[i]).name),
        ) by {
            assert(rest[i] == contents[i]);
        }
        law_plain_templates_are_kept(template, vars, rest);
        assert(!text::holds(template, placeholder(contents[contents.len() - 1].name)));
    }
}

/// What a template of one variable becomes, step by step: the text before the first place of
/// the variable is kept, the place takes the whole text of the variable's file, and what
/// follows is treated likewise.
pub proof fn law_contents_are_filled_in(
    a: Seq<char>,
    name: Seq<char>,
    b: Seq<char>,
    t: Seq<char>,
)
    requires
        text_facts::first_after(a, "{{"@ + name + "}}"@, b),
    ensures
        ({
            let v = seq![ContentView { name, text: Ok(t) }];
            &&& with_contents(b, v) is Ok
            &&& with_contents(a + ("{{"@ + name + "}}"@) + b, v) == Ok::<_, Seq<char>>(
                a + t + with_contents(b, v)->Ok_0,
            )
        }),
{
    reveal_strlit("{{");
    let p = "{{"@ + name + "}}"@;
    let s = a + p + b;
    let n = a.len() as int;
    let one = seq![ContentView { name, text: Ok(t) }];
    assert(one.drop_last() =~= Seq::<ContentView>::empty());
    assert(with_contents(s, one.drop_last()) == Ok::<_, Seq<char>>(s));
    assert(with_contents(b, one.drop_last()) == Ok::<_, Seq<char>>(b));
    assert(s.subrange(n, n + p.len()) =~= p);
    text_facts::lemma_find_is(s, p, 0, n);
    text_facts::law_replaced_step(a, p, b, t);
    assert(placeholder(name) == p);
}

/// A prompt in which a variable stands once gets the whole text of the variable's file there,
/// and nothing else of it changes, whatever variables were filled in before.
pub proof fn law_whole_file_reaches_the_prompt(
    template: Seq<char>,
    vars: Seq<ContentView>,
    a: Seq<char>,
    name: Seq<char>,
    b: Seq<char>,
    t: Seq<char>,
)
    requires
        with_contents(template, vars) == Ok::<_, Seq<char>>(a + ("{{"@ + name + "}}"@) + b),
        text_facts::only_at(a + ("{{"@ + name + "}}"@) + b, "{{"@ + name + "}}"@, a.len() as int),
    ensures
        with_contents(template, vars.push(ContentView { name, text: Ok(t) })) == Ok::<_, Seq<char>>(
            a + t + b,
        ),
        vars.len() == 0 ==> template == a + ("{{"@ + name + "}}"@) + b,
{
    reveal_strlit("{{");
    let p = "{{"@ + name + "}}"@;
    let s = a + p + b;
    let more = vars.push(ContentView { name, text: Ok(t) });
    assert(more.drop_last() =~= vars);
    text_facts::lemma_find_is(s, p, 0, a.len() as int);
    text_facts::law_replaced_once(a, p, b, t, s);
    assert(placeholder(name) == p);
}

/// A prompt of one variable that stands in it once is the prompt with the whole text of the
/// variable's file in its place.
pub proof fn law_one_variable(a: Seq<char>, name: Seq<char>, b: Seq<char>, t: Seq<char>)
    requires
        text_facts::only_at(a + ("{{"@ + name + "}}"@) + b, "{{"@ + name + "}}"@, a.len() as int),
    ensures
        with_contents(a + ("{{"@ + name + "}}"@) + b, seq![ContentView { name, text: Ok(t) }])
            == Ok::<_, Seq<char>>(a + t + b),
        with_paths(a + ("{{"@ + name + "}}"@) + b, seq![(name, t)]) == a + quoted(t) + b,
{
    reveal_strlit("{{");
    let p = "{{"@ + name + "}}"@;
    let s = a + p + b;
    let none = Seq::<ContentView>::empty();
    law_whole_file_reaches_the_prompt(s, none, a, name, b, t);
    assert(none.push(ContentView { name, text: Ok(t) }) =~= seq![ContentView { name, text: Ok(t) }]);
    let one = seq![(name, t)];
    assert(one.drop_last() =~= Seq::<(Seq<char>, Seq<char>)>::empty());
    assert(with_paths(s, one.drop_last()) == s);
    text_facts::law_replaced_once(a, p, b, quoted(t), s);
    assert(placeholder(name) == p);
}

/// A command in which a variable stands gets the quoted path of the variable's file there:
/// what stands before is kept, and what follows is treated likewise, whatever variables were
/// filled in before.
pub proof fn law_paths_are_filled_in(
    template: Seq<char>,
    vars: Seq<(Seq<char>, Seq<char>)>,
    a: Seq<char>,
    name: Seq<char>,
    b: Seq<char>,
    path: Seq<char>,
)
    requires
        with_paths(template, vars) == a + ("{{"@ + name + "}}"@) + b,
        text_facts::first_after(a, "{{"@ + name + "}}"@, b),
    ensures
        with_paths(template, vars.push((name, path))) == a + quoted(path) + with_paths(
            b,
            seq![(name, path)],
        ),
        shell_word(quoted(path)) == Some(path),
{
    reveal_strlit("{{");
    let p = "{{"@ + name + "}}"@;
    assert(vars.push((name, path)).drop_last() =~= vars);
    let one = seq![(name, path)];
    assert(one.drop_last() =~= Seq::<(Seq<char>, Seq<char>)>::empty());
    assert(with_paths(b, one.drop_last()) == b);
    text_facts::law_replaced_step(a, p, b, quoted(path));
    assert(placeholder(name) == p);
    law_quoted_path_is_one_word(path);
}

/// A file that a prompt needs and that could not be read is an error, which names the variable
/// and the reason; and an error stays one, whatever variables follow.
pub proof fn law_unreadable_variable(
    template: Seq<char>,
    vars: Seq<ContentView>,
    more: ContentView,
    name: Seq<char>,
    reason: Seq<char>,
    at: int,
)
    ensures
        with_contents(template, vars) matches Ok(s) && text::occurs_at(s, "{{"@ + name + "}}"@, at)
            ==> with_contents(template, vars.push(ContentView { name, text: Err(reason) }))
            == Err::<Seq<char>, _>("failed to read variable '"@ + name + "': "@ + reason),
        with_contents(template, vars) is Err ==> with_contents(template, vars.push(more))
            == with_contents(template, vars),
{
    let v = ContentView { name, text: Err(reason) };
    assert(vars.push(v).drop_last() =~= vars);
    assert(vars.push(more).drop_last() =~= vars);
    if let Ok(s) = with_contents(template, vars) {
        text_facts::lemma_find(s, "{{"@ + name + "}}"@, 0);
    }
}

/// The steps of a plan are done one after the other, each exactly once: a step that is not
/// cached is what is to be done, as the plan says it, and only once it has its output the next
/// one comes; a cached one is passed over.
pub proof fn law_steps_in_order(
    st: ExecutionView,
    steps: Seq<StepView>,
    root: Seq<char>,
    cached: bool,
)
    ensures
        ({
            let (after, action) = next_action(st, steps, root, cached);
            &&& action is Finished <==> st.done >= steps.len()
            &&& action is Finished ==> after == st
            &&& st.done < steps.len() ==> {
                let s = steps[st.done as int];
                &&& cached ==> after.done == st.done + 1 && (action matches StepActionView::Cached {
                    name,
                } && name == planner::step_name(s))
                &&& !cached ==> after == st
                &&& !cached ==> (s matches StepView::Llm { prompt, .. } ==> (
                action matches StepActionView::Llm { prompt: p, .. } && p == prompt))
                &&& !cached ==> (s matches StepView::Shell { cmd, name, .. } ==> (
                action matches StepActionView::Shell { cmd: c, name: n, .. } && n == name && c
                    == with_paths(cmd, st.vars)))
            }
        }),
{
}

/// The output of a step is found under its variable in the step's own directory by every later
/// step, and the variables of other steps stay.
pub proof fn law_output_is_a_variable(
    st: ExecutionView,
    steps: Seq<StepView>,
    root: Seq<char>,
    other: (Seq<char>, Seq<char>),
)
    requires
        st.done < steps.len(),
    ensures
        ({
            let s = steps[st.done as int];
            let after = advanced(st, steps, root);
            &&& after.done == st.done + 1
            &&& after.vars.contains(
                (
                    planner::step_var(s),
                    workspace::output_file(root, planner::step_id(s) + "-"@ + planner::step_name(s)),
                ),
            )
            &&& other.0 != planner::step_var(s) ==> (after.vars.contains(other)
                <==> st.vars.contains(other))
        }),
{
    let s = steps[st.done as int];
    pairs::law_set_pair(
        st.vars,
        planner::step_var(s),
        workspace::output_file(root, planner::step_dir(s)),
        other,
    );
}

/// Of a reply only the thoughts that it opens with are left out, and the white space after
/// them: everything behind is kept, and a reply that opens with no thoughts is kept whole.
pub proof fn law_reply_behind_the_thoughts(thoughts: Seq<char>, reply: Seq<char>, s: Seq<char>)
    requires
        text_facts::first_after("<think>"@ + thoughts, "</think>"@, reply),
    ensures
        exists|w: Seq<char>|
            text::blank(w) && reply == #[trigger] (w + without_opening(
                "<think>"@ + thoughts + "</think>"@ + reply,
            )),
        !text::begins_with(s, "<think>"@) ==> without_opening(s) == s,
{
    reveal_strlit("<think>");
    reveal_strlit("</think>");
    let t = "<think>"@ + thoughts + "</think>"@ + reply;
    let n = ("<think>"@ + thoughts).len() as int;
    assert(t.subrange(0, 7) =~= "<think>"@);
    text_facts::lemma_find_is(t, "<think>"@, 0, 0);
    assert(t.subrange(n, n + 8) =~= "</think>"@);
    text_facts::lemma_find_is(t, "</think>"@, 0, n);
    assert(t.skip(n + 8) =~= reply);
    text_facts::law_trimming(reply);
    assert(without_opening(t) == text::ltrim(reply));
    let k = choose|k: int|
        0 <= k <= reply.len() && text::ltrim(reply) == #[trigger] reply.skip(k) && text::blank(
            reply.take(k),
        );
    assert(reply =~= reply.take(k) + without_opening(t));
    text_facts::lemma_find(s, "<think>"@, 0);
}

/// What a command said and how it ended is logged, and a failure is reported with the step, the
/// exit code and what the command said, but for white space at the end.
pub proof fn law_failures_are_told(name: Seq<char>, code: Option<i32>, said: Seq<char>, w: Seq<char>)
    requires
        text_facts::tight(said) && text::blank(w),
    ensures
        code_of(None) == -1,
        code matches Some(c) ==> code_of(code) == c,
        shell_log(code, said + w) == "exit: "@ + text::signed_decimal(code_of(code))
            + "\nstderr:\n"@ + said,
        shell_failure(name, code, said + w) == "step '"@ + name + "' failed (exit "@
            + text::signed_decimal(code_of(code)) + ")\nstderr: "@ + said,
{
    text_facts::lemma_rtrim_trail(said, w);
    if said.len() > 0 {
        assert(text::rtrim(said) == said);
    } else {
        assert(text::rtrim(said) =~= said);
    }
}

} // verus!
