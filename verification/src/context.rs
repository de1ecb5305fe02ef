//! What a conversation starts from.

use crate::text;
use vstd::prelude::*;

verus! {

/// Where the user works, and the skill that was chosen.
pub struct ContextProvider {
    branch: Option<String>,
    skill_content: Option<String>,
}

/// What a [`ContextProvider`] holds.
#[verifier::ext_equal]
pub struct ContextView {
    pub branch: Option<Seq<char>>,
    pub skill_content: Option<Seq<char>>,
}

impl View for ContextProvider {
    type V = ContextView;

    closed spec fn view(&self) -> ContextView {
        ContextView {
            branch: text::option_view(self.branch),
            skill_content: text::option_view(self.skill_content),
        }
    }
}

/// The prompt of the skill; empty where none was chosen.
pub open spec fn skill_prompt(c: ContextView) -> Seq<char> {
    match c.skill_content {
        Some(s) => s,
        None => Seq::empty(),
    }
}

impl ContextProvider {
    /// A context on the git branch `branch`.
    pub fn new(branch: Option<String>, skill_content: Option<String>) -> (r: Self)
        ensures
            r@ == (ContextView {
                branch: text::option_view(branch),
                skill_content: text::option_view(skill_content),
            }),
    {
        ContextProvider { branch, skill_content }
    }

    pub fn branch(&self) -> (r: Option<&str>)
        ensures
            self@.branch == match r {
                Some(b) => Some(b@),
                None => None,
            },
    {
        match &self.branch {
            Some(b) => Some(b.as_str()),
            None => None,
        }
    }

    pub fn system_prompt(&self) -> (r: String)
        ensures
            r@ == skill_prompt(self@),
    {
        match &self.skill_content {
            Some(s) => s.clone(),
            None => String::new(),
        }
    }
}

/// The whole system prompt: that of the skill, then that of the tools.
pub fn full_prompt(skill: &str, tools: &str) -> (r: String)
    ensures
        r@ == skill@ + "\n"@ + tools@,
{
    let mut out = skill.to_string();
    out.append("\n");
    out.append(tools);
    out
}

/// The chosen skill is the whole prompt, word for word; without one there is none.
pub proof fn law_skill_is_the_prompt(branch: Option<Seq<char>>, skill: Seq<char>)
    ensures
        skill_prompt(ContextView { branch, skill_content: Some(skill) }) == skill,
        skill_prompt(ContextView { branch, skill_content: None }).len() == 0,
{
}

} // verus!
