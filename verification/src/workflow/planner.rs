//! Plans: what a model makes of a workflow.

use crate::session;
use crate::session::{Message, Role};
use crate::text;
use crate::text_facts;
use crate::workflow::parser::{WorkflowDef, WorkflowDefView};
use vstd::prelude::*;

verus! {

/// A plan that can be run step by step.
pub struct ExecutionPlan {
    pub name: String,
    pub steps: Vec<Step>,
}

/// A step of a plan.
pub enum Step {
    /// Run a shell command and keep what it prints.
    Shell { id: String, name: String, cmd: String, output_var: String },
    /// Ask the model and keep what it answers.
    Llm { id: String, name: String, prompt: String, output_var: String },
}

/// What a [`Step`] says.
pub enum StepView {
    Shell { id: Seq<char>, name: Seq<char>, cmd: Seq<char>, output_var: Seq<char> },
    Llm { id: Seq<char>, name: Seq<char>, prompt: Seq<char>, output_var: Seq<char> },
}

impl View for Step {
    type V = StepView;

    open spec fn view(&self) -> StepView {
        match self {
            Step::Shell { id, name, cmd, output_var } => StepView::Shell {
                id: id@,
                name: name@,
                cmd: cmd@,
                output_var: output_var@,
            },
            Step::Llm { id, name, prompt, output_var } => StepView::Llm {
                id: id@,
                name: name@,
                prompt: prompt@,
                output_var: output_var@,
            },
        }
    }
}

pub open spec fn step_views(v: Seq<Step>) -> Seq<StepView> {
    v.map_values(|s: Step| s@)
}

pub open spec fn step_id(s: StepView) -> Seq<char> {
    match s {
        StepView::Shell { id, .. } => id,
        StepView::Llm { id, .. } => id,
    }
}

pub open spec fn step_name(s: StepView) -> Seq<char> {
    match s {
        StepView::Shell { name, .. } => name,
        StepView::Llm { name, .. } => name,
    }
}

pub open spec fn step_var(s: StepView) -> Seq<char> {
    match s {
        StepView::Shell { output_var, .. } => output_var,
        StepView::Llm { output_var, .. } => output_var,
    }
}

/// The name of the directory of a step.
pub open spec fn step_dir(s: StepView) -> Seq<char> {
    step_id(s) + "-"@ + step_name(s)
}

impl Step {
    pub fn id(&self) -> (r: &str)
        ensures
            r@ == step_id(self@),
    {
        match self {
            Step::Shell { id, .. } => id.as_str(),
            Step::Llm { id, .. } => id.as_str(),
        }
    }

    pub fn name(&self) -> (r: &str)
        ensures
            r@ == step_name(self@),
    {
        match self {
            Step::Shell { name, .. } => name.as_str(),
            Step::Llm { name, .. } => name.as_str(),
        }
    }

    pub fn output_var(&self) -> (r: &str)
        ensures
            r@ == step_var(self@),
    {
        match self {
            Step::Shell { output_var, .. } => output_var.as_str(),
            Step::Llm { output_var, .. } => output_var.as_str(),
        }
    }

    /// The name of the step's directory in the workspace.
    pub fn dir_name(&self) -> (r: String)
        ensures
            r@ == step_dir(self@),
    {
        let mut out = self.id().to_string();
        out.append("-");
        out.append(self.name());
        out
    }
}

/// How the model is told to make a plan.
pub const COMPILE_SYSTEM: &'static str = "You are a workflow compiler. Convert a natural-language workflow into a precise JSON execution plan. Output ONLY valid JSON — no markdown fences, no explanation, no surrounding text.

Available step types:
- shell: run a shell command, capture stdout as output
- llm: call the AI model with a prompt, capture response as output

Tools available on the system: gh (GitHub CLI), jq, python3, curl, git, mail.

Variable references: {{var_name}} in a step is replaced with the shell-quoted path to that variable's output file.
- Pass as a file argument:  jq '...' {{commits}}
- Read content inline:      $(cat {{commits}})
- Pass to a Python script:  python3 fill.py {{summary}} template.docx
In llm prompts, {{var_name}} is replaced with the actual file content before sending.

Step ids must be sequential: step-01, step-02, step-03, ...
Step names must be short kebab-case: collect-commits, group-repos, summarize-work, ...

Output this JSON structure exactly:
{
  \"name\": \"workflow-name\",
  \"steps\": [
    {\"type\": \"shell\", \"id\": \"step-01\", \"name\": \"kebab-name\", \"cmd\": \"shell command\", \"output_var\": \"var_name\"},
    {\"type\": \"llm\",   \"id\": \"step-02\", \"name\": \"kebab-name\", \"prompt\": \"prompt with {{var}} refs\", \"output_var\": \"var_name\"}
  ]
}";

/// What the model is asked.
pub open spec fn compile_request(d: WorkflowDefView) -> Seq<char> {
    match d.description {
        Some(desc) => "Compile this workflow to a JSON execution plan.\nDescription: "@ + desc
            + "\n\n"@ + d.raw_steps,
        None => "Compile this workflow to a JSON execution plan:\n\n"@ + d.raw_steps,
    }
}

/// The messages that ask the model for a plan.
pub fn compile_messages(def: &WorkflowDef) -> (r: Vec<Message>)
    ensures
        session::message_views(r@) == seq![
            session::said(Role::System, COMPILE_SYSTEM@),
            session::said(Role::User, compile_request(def@)),
        ],
{
    let user = match &def.description {
        Some(desc) => {
            let mut t =
                "Compile this workflow to a JSON execution plan.\nDescription: ".to_string();
            t.append(desc.as_str());
            t.append("\n\n");
            t.append(def.raw_steps.as_str());
            t
        },
        None => text::cat(
            "Compile this workflow to a JSON execution plan:\n\n",
            def.raw_steps.as_str(),
        ),
    };
    let mut out: Vec<Message> = Vec::new();
    out.push(Message::system(COMPILE_SYSTEM));
    out.push(Message::user(user.as_str()));
    assert(session::message_views(out@) =~= seq![
        session::said(Role::System, COMPILE_SYSTEM@),
        session::said(Role::User, compile_request(def@)),
    ]);
    out
}

/// Where the first block of thoughts starts and ends in a text.
pub open spec fn thoughts(s: Seq<char>) -> Option<(int, int)> {
    match text::first_of(s, "<think>"@) {
        Some(a) => match text::first_of(s.skip(a + 7), "</think>"@) {
            Some(b) => Some((a, a + 7 + b + 8)),
            None => None,
        },
        None => None,
    }
}

/// A text without its blocks of thoughts. One that is not closed is no block.
pub open spec fn without_thoughts(s: Seq<char>) -> Seq<char>
    decreases s.len(),
{
    match thoughts(s) {
        Some((a, b)) => if 0 <= a < b <= s.len() {
            s.take(a) + without_thoughts(s.skip(b))
        } else {
            s
        },
        None => s,
    }
}

/// Takes the blocks of thoughts out of a text.
fn drop_thoughts(s: &str) -> (r: String)
    ensures
        r@ == without_thoughts(s@),
{
    let mut out = String::new();
    let mut rest: &str = s;
    proof {
        reveal_strlit("<think>");
        reveal_strlit("</think>");
    }
    assert(out@ + without_thoughts(rest@) =~= without_thoughts(s@));
    loop
        invariant
            "<think>"@.len() == 7,
            "</think>"@.len() == 8,
            out@ + without_thoughts(rest@) == without_thoughts(s@),
        decreases rest@.len(),
    {
        let ghost before = out@;
        let n = rest.unicode_len();
        let a = match text::find(rest, "<think>") {
            Some(a) => a,
            None => {
                out.append(rest);
                return out;
            },
        };
        assert(a + 7 <= n);
        let inner = text::skip(rest, a + 7);
        let m = inner.unicode_len();
        let b = match text::find(inner, "</think>") {
            Some(b) => b,
            None => {
                out.append(rest);
                return out;
            },
        };
        assert(b + 8 <= m);
        let tail = text::skip(inner, b + 8);
        assert(tail@ =~= rest@.skip(a + 7 + b + 8));
        out.append(text::take(rest, a));
        assert(before + (rest@.take(a as int) + without_thoughts(tail@)) =~= out@
            + without_thoughts(tail@));
        rest = tail;
    }
}

/// The JSON object in a text: from the first opening brace to the last closing one, or
/// all of it where there is none.
pub open spec fn braced(t: Seq<char>) -> Seq<char> {
    match (text::first_char(t, '{'), text::last_char(t, '}')) {
        (Some(a), Some(b)) => if b >= a {
            t.subrange(a, b + 1)
        } else {
            t
        },
        _ => t,
    }
}

/// The JSON object in a model's reply, its thoughts aside.
pub open spec fn json_in(s: Seq<char>) -> Seq<char> {
    braced(text::trimmed(without_thoughts(s)))
}

/// Takes the JSON object out of a model's reply.
pub fn extract_json(s: &str) -> (r: String)
    ensures
        r@ == json_in(s@),
{
    let plain = drop_thoughts(s);
    let t = text::trim(plain.as_str());
    match text::find_char(t, '{') {
        Some(a) => match text::rfind_char(t, '}') {
            Some(b) => {
                if b >= a {
                    let n = t.unicode_len();
                    t.substring_char(a, b + 1).to_string()
                } else {
                    t.to_string()
                }
            },
            None => t.to_string(),
        },
        None => t.to_string(),
    }
}

/// Why a reply is no plan.
pub fn plan_error(e: &str, reply: &str) -> (r: String)
    ensures
        r@ == "failed to parse compiled plan ("@ + e@ + ")\nRaw response:\n"@ + reply@,
{
    let mut m = "failed to parse compiled plan (".to_string();
    m.append(e);
    m.append(")\nRaw response:\n");
    m.append(reply);
    m
}

/// A number in a column of two characters.
pub open spec fn column(n: nat) -> Seq<char> {
    if n < 10 {
        seq![' '] + text::decimal(n)
    } else {
        text::decimal(n)
    }
}

fn append_column(out: &mut String, n: u64)
    ensures
        final(out)@ == old(out)@ + column(n as nat),
{
    if n < 10 {
        out.push(' ');
    }
    out.append(text::to_decimal(n).as_str());
    assert(out@ =~= old(out)@ + column(n as nat));
}

/// A prompt as it is shown: the first eighty bytes of a longer one.
pub open spec fn shown_prompt(p: Seq<char>) -> Seq<char> {
    if text::size(p) > 80 {
        text::byte_prefix(p, 80) + "…"@
    } else {
        p
    }
}

/// A prompt that can be cut where it is.
pub open spec fn showable(s: StepView) -> bool {
    match s {
        StepView::Llm { prompt, .. } => text::size(prompt) > 80 ==> text::boundary(prompt, 80),
        StepView::Shell { .. } => true,
    }
}

/// The lines that show the step with number `n`.
pub open spec fn step_text(n: nat, s: StepView) -> Seq<char> {
    match s {
        StepView::Shell { name, cmd, output_var, .. } => "  "@ + column(n) + "  [shell]  "@ + name
            + "\n            $ "@ + cmd + "\n            → "@ + output_var + "\n\n"@,
        StepView::Llm { name, prompt, output_var, .. } => "  "@ + column(n) + "  [llm  ]  "@ + name
            + "\n            "@ + shown_prompt(prompt) + "\n            → "@ + output_var + "\n\n"@,
    }
}

pub open spec fn steps_text(steps: Seq<StepView>) -> Seq<char>
    decreases steps.len(),
{
    if steps.len() == 0 {
        Seq::empty()
    } else {
        steps_text(steps.drop_last()) + step_text(steps.len(), steps.last())
    }
}

/// A plan as it is shown before it runs.
pub open spec fn plan_text(name: Seq<char>, steps: Seq<StepView>) -> Seq<char> {
    "\nCompiled plan: "@ + name + " ("@ + text::decimal(steps.len()) + " step"@ + (if steps.len()
        == 1 {
        Seq::empty()
    } else {
        "s"@
    }) + ")\n\n"@ + steps_text(steps)
}

fn append_step(out: &mut String, n: u64, step: &Step)
    requires
        showable(step@),
    ensures
        final(out)@ == old(out)@ + step_text(n as nat, step@),
{
    let ghost before = out@;
    out.append("  ");
    append_column(out, n);
    match step {
        Step::Shell { name, cmd, output_var, .. } => {
            out.append("  [shell]  ");
            out.append(name.as_str());
            out.append("\n            $ ");
            out.append(cmd.as_str());
            out.append("\n            → ");
            out.append(output_var.as_str());
        },
        Step::Llm { name, prompt, output_var, .. } => {
            out.append("  [llm  ]  ");
            out.append(name.as_str());
            out.append("\n            ");
            if text::byte_size(prompt.as_str()) > 80 {
                out.append(text::take_bytes(prompt.as_str(), 80));
                out.append("…");
            } else {
                out.append(prompt.as_str());
            }
            out.append("\n            → ");
            out.append(output_var.as_str());
        },
    }
    out.append("\n\n");
    assert(out@ =~= before + step_text(n as nat, step@));
}

/// Shows a plan. A prompt longer than eighty bytes must have a character starting right
/// there.
pub fn print_plan(plan: &ExecutionPlan) -> (r: String)
    requires
        forall|i: int| 0 <= i < plan.steps.len() ==> showable((#[trigger] plan.steps@[i])@),
    ensures
        r@ == plan_text(plan.name@, step_views(plan.steps@)),
{
    let mut out = "\nCompiled plan: ".to_string();
    out.append(plan.name.as_str());
    out.append(" (");
    out.append(text::to_decimal(plan.steps.len() as u64).as_str());
    out.append(" step");
    if plan.steps.len() != 1 {
        out.append("s");
    } else {
        assert(out@ =~= out@ + Seq::<char>::empty());
    }
    out.append(")\n\n");
    let ghost head = out@;
    let ghost all = step_views(plan.steps@);
    let mut i: usize = 0;
    assert(all.take(0) =~= Seq::<StepView>::empty());
    assert(head + Seq::<char>::empty() =~= head);
    while i < plan.steps.len()
        invariant
            i <= plan.steps.len(),
            all == step_views(plan.steps@),
            out@ == head + steps_text(all.take(i as int)),
            forall|j: int| 0 <= j < plan.steps.len() ==> showable((#[trigger] plan.steps@[j])@),
        decreases plan.steps.len() - i,
    {
        assert(all.take(i + 1).drop_last() =~= all.take(i as int));
        assert(all.take(i + 1).last() == plan.steps[i as int]@);
        assert(showable(plan.steps@[i as int]@));
        append_step(&mut out, i as u64 + 1, &plan.steps[i]);
        i += 1;
        assert(out@ =~= head + steps_text(all.take(i as int)));
    }
    assert(all.take(i as int) =~= all);
    out
}

/// Where a reply holds an opening and, after it, a closing brace, what is taken out of it
/// starts with the one and ends with the other.
pub proof fn law_extracted_json_is_braced(t: Seq<char>)
    ensures
        ({
            let j = braced(t);
            j == t || (j.len() >= 2 && j[0] == '{' && j.last() == '}')
        }),
        text::first_char(t, '{') is None ==> braced(t) == t,
{
    text::lemma_first_char(t, '{');
    lemma_last_char(t, '}');
}

proof fn lemma_last_char(s: Seq<char>, c: char)
    ensures
        text::last_char(s, c) matches Some(i) ==> 0 <= i < s.len() && s[i] == c,
    decreases s.len(),
{
    if s.len() > 0 && s.last() != c {
        lemma_last_char(s.drop_last(), c);
    }
}

/// The steps of a plan have directories of their own where their ids differ and are as
/// long as one another.
pub proof fn law_step_directories_differ(a: StepView, b: StepView)
    requires
        step_id(a) != step_id(b),
        step_id(a).len() == step_id(b).len(),
    ensures
        step_dir(a) != step_dir(b),
{
    if step_dir(a) == step_dir(b) {
        let n = step_id(a).len() as int;
        assert(step_dir(a).take(n) =~= step_id(a));
        assert(step_dir(b).take(n) =~= step_id(b));
    }
}

/// A block of thoughts is left out and the text before it is kept; what follows is treated
/// likewise; and a text without such a block is kept whole.
pub proof fn law_thoughts_are_left_out(
    a: Seq<char>,
    inner: Seq<char>,
    b: Seq<char>,
    s: Seq<char>,
)
    requires
        text_facts::first_after(a, "<think>"@, inner + "</think>"@ + b),
        text_facts::first_after(inner, "</think>"@, b),
    ensures
        without_thoughts(a + "<think>"@ + (inner + "</think>"@ + b)) == a + without_thoughts(b),
        (forall|j: int| !#[trigger] text::occurs_at(s, "<think>"@, j)) ==> without_thoughts(s) == s,
{
    reveal_strlit("<think>");
    reveal_strlit("</think>");
    let tail = inner + "</think>"@ + b;
    let t = a + "<think>"@ + tail;
    let n = a.len() as int;
    assert(t.subrange(n, n + 7) =~= "<think>"@);
    text_facts::lemma_find_is(t, "<think>"@, 0, n);
    assert(t.skip(n + 7) =~= tail);
    let k = inner.len() as int;
    assert(tail.subrange(k, k + 8) =~= "</think>"@);
    text_facts::lemma_find_is(tail, "</think>"@, 0, k);
    assert(t.take(n) =~= a);
    assert(t.skip(n + 7 + k + 8) =~= b);
    text_facts::lemma_find(s, "<think>"@, 0);
}

/// The object in a reply is taken out whole, whatever stands round it: from the first opening
/// brace to the last closing one.
pub proof fn law_object_is_taken_out(a: Seq<char>, object: Seq<char>, b: Seq<char>)
    requires
        object.len() >= 2 && object[0] == '{' && object.last() == '}',
        text_facts::free_of(a, '{') && text_facts::free_of(b, '}'),
        forall|j: int| !#[trigger] text::occurs_at(a + object + b, "<think>"@, j),
    ensures
        json_in(a + object + b) == object,
        braced(a + object + b) == object,
{
    let s = a + object + b;
    text_facts::lemma_find(s, "<think>"@, 0);
    assert(without_thoughts(s) == s);
    lemma_braced(a, object, b);
    text_facts::law_trimming(s);
    let t = text::trimmed(s);
    let (n, m) = choose|n: int, m: int|
        0 <= n <= m <= s.len() && t == #[trigger] s.subrange(n, m) && text::blank(s.take(n))
            && text::blank(s.skip(m));
    let x = a.len() as int;
    let y = x + object.len();
    assert(n <= x) by {
        if n > x {
            assert(s.take(n)[x] == object[0]);
            assert(text::white(s.take(n)[x]));
        }
    }
    assert(y <= m) by {
        if m < y {
            let i = y - 1 - m;
            assert(s.skip(m)[i] == object[object.len() - 1]);
            assert(text::white(s.skip(m)[i]));
        }
    }
    let c = a.skip(n);
    let d = b.take(m - y);
    assert(t =~= c + object + d);
    assert forall|i: int| 0 <= i < c.len() implies #[trigger] c[i] != '{' by {
        assert(c[i] == a[n + i]);
    }
    assert forall|i: int| 0 <= i < d.len() implies #[trigger] d[i] != '}' by {
        assert(d[i] == b[i]);
    }
    lemma_braced(c, object, d);
}

proof fn lemma_braced(a: Seq<char>, object: Seq<char>, b: Seq<char>)
    requires
        object.len() >= 2 && object[0] == '{' && object.last() == '}',
        text_facts::free_of(a, '{') && text_facts::free_of(b, '}'),
    ensures
        braced(a + object + b) == object,
{
    let s = a + object + b;
    let x = a.len() as int;
    assert(s[x] == '{');
    assert forall|j: int| 0 <= j < x implies #[trigger] s[j] != '{' by {
        assert(s[j] == a[j]);
    }
    text::lemma_first_char_is(s, '{', x);
    lemma_last_is(a + object, b);
    assert((a + object).last() == '}');
    assert(s.subrange(x, x + object.len()) =~= object);
}

proof fn lemma_last_is(a: Seq<char>, b: Seq<char>)
    requires
        a.len() > 0 && a.last() == '}',
        text_facts::free_of(b, '}'),
    ensures
        text::last_char(a + b, '}') == Some(a.len() - 1),
    decreases b.len(),
{
    if b.len() == 0 {
        assert(a + b =~= a);
    } else {
        let c = b.drop_last();
        assert((a + b).last() == b[b.len() - 1]);
        assert((a + b).drop_last() =~= a + c);
        assert forall|i: int| 0 <= i < c.len() implies #[trigger] c[i] != '}' by {
            assert(c[i] == b[i]);
        }
        lemma_last_is(a, c);
    }
}

/// The model is given all the steps of the workflow, and its description where there is one.
pub proof fn law_model_is_given_the_steps(d: WorkflowDefView)
    ensures
        text::finishes_with(compile_request(d), d.raw_steps),
        d.description matches Some(t) ==> text_facts::part_of(t, compile_request(d)),
{
    let r = compile_request(d);
    assert(r.subrange(r.len() - d.raw_steps.len(), r.len() as int) =~= d.raw_steps);
    if let Some(t) = d.description {
        let head = "Compile this workflow to a JSON execution plan.\nDescription: "@;
        text_facts::lemma_part(head, t, "\n\n"@ + d.raw_steps);
        assert(r =~= head + t + ("\n\n"@ + d.raw_steps));
    }
}

/// Every step of a plan is shown before it runs: its number, its name, its whole command or the
/// start of its prompt, and its variable.
pub proof fn law_every_step_is_shown(name: Seq<char>, steps: Seq<StepView>, i: int)
    requires
        0 <= i < steps.len(),
    ensures
        text_facts::part_of(step_text((i + 1) as nat, steps[i]), steps_text(steps)),
        text_facts::part_of(steps_text(steps), plan_text(name, steps)),
        text_facts::part_of(name, plan_text(name, steps)),
        steps[i] matches StepView::Shell { name: n, cmd, output_var, .. } ==> step_text(
            (i + 1) as nat,
            steps[i],
        ) == "  "@ + column((i + 1) as nat) + "  [shell]  "@ + n + "\n            $ "@ + cmd
            + "\n            → "@ + output_var + "\n\n"@,
        steps[i] matches StepView::Llm { name: n, prompt, output_var, .. } ==> (text::size(prompt)
            <= 80 ==> step_text((i + 1) as nat, steps[i]) == "  "@ + column((i + 1) as nat)
            + "  [llm  ]  "@ + n + "\n            "@ + prompt + "\n            → "@ + output_var
            + "\n\n"@),
    decreases steps.len(),
{
    let t = step_text((i + 1) as nat, steps[i]);
    let before = steps_text(steps.drop_last());
    if i == steps.len() - 1 {
        assert(steps.last() == steps[i]);
        text_facts::lemma_part_end(before, t);
    } else {
        assert(steps.drop_last()[i] == steps[i]);
        law_every_step_is_shown(name, steps.drop_last(), i);
        text_facts::lemma_part_grows(t, before, step_text(steps.len(), steps.last()));
    }
    let head = "\nCompiled plan: "@;
    let count = text::decimal(steps.len());
    let plural = if steps.len() == 1 {
        Seq::empty()
    } else {
        "s"@
    };
    let all = steps_text(steps);
    let p = head + name + " ("@ + count + " step"@ + plural + ")\n\n"@;
    text_facts::lemma_part_end(p, all);
    text_facts::lemma_part_end(head, name);
    text_facts::lemma_part_grows(name, head + name, " ("@);
    text_facts::lemma_part_grows(name, head + name + " ("@, count);
    text_facts::lemma_part_grows(name, head + name + " ("@ + count, " step"@);
    text_facts::lemma_part_grows(name, head + name + " ("@ + count + " step"@, plural);
    text_facts::lemma_part_grows(
        name,
        head + name + " ("@ + count + " step"@ + plural,
        ")\n\n"@,
    );
    text_facts::lemma_part_grows(name, p, all);
}

/// A step goes by its id and its name, and its output by its variable, as the plan says them.
pub proof fn law_steps_go_by_their_names(s: StepView)
    ensures
        s matches StepView::Shell { id, name, output_var, .. } ==> step_id(s) == id && step_name(s)
            == name && step_var(s) == output_var && step_dir(s) == id + "-"@ + name,
        s matches StepView::Llm { id, name, output_var, .. } ==> step_id(s) == id && step_name(s)
            == name && step_var(s) == output_var && step_dir(s) == id + "-"@ + name,
{
}

} // verus!
