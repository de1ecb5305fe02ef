//! Workflow documents.

use crate::front_matter;
use crate::front_matter::{Front, FrontView};
use crate::text;
use crate::text_facts;
use vstd::prelude::*;

verus! {

/// A workflow as its author wrote it.
pub struct WorkflowDef {
    pub name: String,
    pub description: Option<String>,
    pub raw_steps: String,
}

/// What a [`WorkflowDef`] says.
#[verifier::ext_equal]
pub struct WorkflowDefView {
    pub name: Seq<char>,
    pub description: Option<Seq<char>>,
    pub raw_steps: Seq<char>,
}

impl View for WorkflowDef {
    type V = WorkflowDefView;

    open spec fn view(&self) -> WorkflowDefView {
        WorkflowDefView {
            name: self.name@,
            description: text::option_view(self.description),
            raw_steps: self.raw_steps@,
        }
    }
}

/// The steps behind the front matter: fences that directly follow the closing one belong to
/// it.
pub open spec fn steps_of(rest: Seq<char>) -> Seq<char> {
    text::ltrim(text::ltrim_str(rest, "\n---"@))
}

/// The workflow that a document describes, or why it describes none.
pub open spec fn workflow_of(raw: Seq<char>) -> Result<WorkflowDefView, Seq<char>> {
    match front_matter::parts_of(raw) {
        FrontView::NoOpening => Err("workflow file must start with `---` frontmatter"@),
        FrontView::NoClosing => Err("workflow file is missing the closing `---`"@),
        FrontView::Parts { front, rest } => {
            let name = front_matter::field(front, "name:"@);
            if name is None || name->0.len() == 0 {
                Err("workflow frontmatter is missing `name:`"@)
            } else {
                Ok(
                    WorkflowDefView {
                        name: name->0,
                        description: front_matter::field(front, "description:"@),
                        raw_steps: steps_of(rest),
                    },
                )
            }
        },
    }
}

/// Reads a workflow from its document.
pub fn parse_workflow_md(raw: &str) -> (r: Result<WorkflowDef, String>)
    ensures
        workflow_of(raw@) == match r {
            Ok(d) => Ok(d@),
            Err(e) => Err(e@),
        },
{
    match front_matter::take_apart(raw) {
        Front::NoOpening => Err("workflow file must start with `---` frontmatter".to_string()),
        Front::NoClosing => Err("workflow file is missing the closing `---`".to_string()),
        Front::Parts { front, rest } => {
            let name = match front_matter::get_field(front, "name:") {
                Some(n) => n,
                None => String::new(),
            };
            if name.as_str().is_empty() {
                return Err("workflow frontmatter is missing `name:`".to_string());
            }
            Ok(
                WorkflowDef {
                    name,
                    description: front_matter::get_field(front, "description:"),
                    raw_steps: text::trim_start(text::trim_start_str(rest, "\n---")).to_string(),
                },
            )
        },
    }
}

/// A workflow that can be read has a name, and its steps do not start with white space.
pub proof fn law_workflow_has_a_name(raw: Seq<char>)
    ensures
        workflow_of(raw) matches Ok(d) ==> d.name.len() > 0 && (d.raw_steps.len() > 0
            ==> !text::white(d.raw_steps[0])),
{
    if let FrontView::Parts { front, rest } = front_matter::parts_of(raw) {
        text::lemma_ltrim(text::ltrim_str(rest, "\n---"@));
    }
}

/// What is cut off before the steps are fences and white space only.
proof fn lemma_steps_cut(rest: Seq<char>)
    ensures
        exists|cut: Seq<char>, w: Seq<char>|
            text::blank(w) && rest == #[trigger] (cut + w + steps_of(rest)),
        !text::begins_with(rest, "\n---"@) ==> exists|w: Seq<char>|
            text::blank(w) && rest == #[trigger] (w + steps_of(rest)),
    decreases rest.len(),
{
    reveal_strlit("\n---");
    if text::begins_with(rest, "\n---"@) {
        let tail = rest.skip(4);
        lemma_steps_cut(tail);
        let (cut, w) = choose|cut: Seq<char>, w: Seq<char>|
            text::blank(w) && tail == #[trigger] (cut + w + steps_of(tail));
        assert(steps_of(rest) == steps_of(tail));
        assert(rest =~= "\n---"@ + tail);
        assert(rest =~= ("\n---"@ + cut) + w + steps_of(rest));
    } else {
        text_facts::law_trimming(rest);
        assert(steps_of(rest) == text::ltrim(rest));
        let k = choose|k: int|
            0 <= k <= rest.len() && text::ltrim(rest) == #[trigger] rest.skip(k) && text::blank(
                rest.take(k),
            );
        let w = rest.take(k);
        assert(rest =~= w + steps_of(rest));
        assert(rest =~= Seq::<char>::empty() + w + steps_of(rest));
    }
}

/// The steps of a workflow are the end of its document: nothing behind the front matter but
/// fences and white space is left out.
pub proof fn law_steps_are_the_rest(raw: Seq<char>)
    ensures
        workflow_of(raw) matches Ok(d) ==> exists|head: Seq<char>| raw == #[trigger] (head
            + d.raw_steps),
{
    front_matter::law_document_is_its_parts(raw);
    if let Ok(d) = workflow_of(raw) {
        if let FrontView::Parts { front, rest } = front_matter::parts_of(raw) {
            let top = choose|top: Seq<char>|
                raw == #[trigger] (top + front + "\n---"@ + rest);
            lemma_steps_cut(rest);
            let (cut, w) = choose|cut: Seq<char>, w: Seq<char>|
                text::blank(w) && rest == #[trigger] (cut + w + steps_of(rest));
            assert(raw =~= (top + front + "\n---"@ + cut + w) + d.raw_steps);
        }
    }
}

/// A workflow that was written down is read back: its name, its description and, white space
/// before them aside, its steps to the last character.
pub proof fn law_workflow_is_read_back(
    name: Seq<char>,
    description: Seq<char>,
    gap: Seq<char>,
    steps: Seq<char>,
)
    requires
        name.len() > 0,
        front_matter::bare(name) && text_facts::line_like(name),
        front_matter::bare(description) && text_facts::line_like(description),
        text::blank(gap),
        steps.len() > 0 ==> !text::white(steps[0]),
        !text::begins_with(gap + steps, "\n---"@),
    ensures
        workflow_of(
            "---\n"@ + (("name: "@ + name + "\n"@ + ("description: "@ + description)) + "\n---"@ + (
            gap + steps)),
        ) == Ok::<_, Seq<char>>(
            (WorkflowDefView { name, description: Some(description), raw_steps: steps }),
        ),
{
    front_matter::law_name_and_description_are_read_back(name, description, gap + steps);
    text_facts::lemma_trim_lead(gap, steps);
    assert(text::ltrim(steps) == steps);
}

} // verus!
