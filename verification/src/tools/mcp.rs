//! Tools of MCP servers.

use crate::text;
use crate::tools::error;
use crate::tools::error::{ToolError, ToolErrorView};
use vstd::prelude::*;

verus! {

/// A tool that an MCP server offers.
pub struct McpTool {
    pub name: String,
    pub description: String,
}

impl McpTool {
    pub fn new(name: String, description: String) -> (r: McpTool)
        ensures
            r == (McpTool { name, description }),
    {
        McpTool { name, description }
    }
}

/// The texts of a reply on lines of their own; what is empty at the start takes none.
pub open spec fn reply_text(texts: Seq<Seq<char>>) -> Seq<char>
    decreases texts.len(),
{
    if texts.len() == 0 {
        Seq::empty()
    } else {
        let before = reply_text(texts.drop_last());
        if before.len() > 0 {
            before + "\n"@ + texts.last()
        } else {
            texts.last()
        }
    }
}

/// What a call of an MCP tool answers.
pub open spec fn reply_answer(texts: Seq<Seq<char>>, is_error: Option<bool>) -> Result<
    Seq<char>,
    ToolErrorView,
> {
    if is_error == Some(true) {
        Err(ToolErrorView::CommandFailed(reply_text(texts)))
    } else {
        Ok(reply_text(texts))
    }
}

/// What a call of an MCP tool answers, given the texts of the server's reply.
pub fn reply_report(texts: &Vec<String>, is_error: Option<bool>) -> (r: Result<String, ToolError>)
    ensures
        error::outcome(r) == reply_answer(text::views(texts@), is_error),
{
    let mut result = String::new();
    let mut i: usize = 0;
    let ghost all = text::views(texts@);
    assert(all.take(0) =~= Seq::<Seq<char>>::empty());
    while i < texts.len()
        invariant
            i <= texts.len(),
            all == text::views(texts@),
            result@ == reply_text(all.take(i as int)),
        decreases texts.len() - i,
    {
        assert(all.take(i + 1).drop_last() =~= all.take(i as int));
        if !result.as_str().is_empty() {
            result.append("\n");
        }
        result.append(texts[i].as_str());
        i += 1;
        assert(result@ =~= reply_text(all.take(i as int)));
    }
    assert(all.take(i as int) =~= all);
    let failed = match is_error {
        Some(b) => b,
        None => false,
    };
    if failed {
        Err(ToolError::CommandFailed(result))
    } else {
        Ok(result)
    }
}

/// The texts of a reply all arrive, in order and whole, each on a line of its own; a reply that
/// is marked as an error is one, with the same words.
pub proof fn law_replies_arrive(texts: Seq<Seq<char>>, t: Seq<char>)
    requires
        forall|i: int| 0 <= i < texts.len() ==> (#[trigger] texts[i]).len() > 0,
    ensures
        reply_text(texts) == text::joined(texts, "\n"@),
        reply_text(seq![t]) == t,
        reply_answer(texts, None) == Ok::<_, ToolErrorView>(text::joined(texts, "\n"@)),
        reply_answer(texts, Some(false)) == Ok::<_, ToolErrorView>(text::joined(texts, "\n"@)),
        reply_answer(texts, Some(true)) == Err::<Seq<char>, _>(
            ToolErrorView::CommandFailed(text::joined(texts, "\n"@)),
        ),
    decreases texts.len(),
{
    assert(seq![t].drop_last() =~= Seq::<Seq<char>>::empty());
    assert(reply_text(seq![t].drop_last()).len() == 0);
    if texts.len() > 0 {
        let rest = texts.drop_last();
        assert forall|i: int| 0 <= i < rest.len() implies (#[trigger] rest[i]).len() > 0 by {
            assert(rest[i] == texts[i]);
        }
        law_replies_arrive(rest, t);
        if rest.len() > 0 {
            lemma_some_text(rest);
        } else {
            assert(reply_text(rest).len() == 0);
            assert(texts.last() == texts[0]);
        }
    }
}

proof fn lemma_some_text(texts: Seq<Seq<char>>)
    requires
        texts.len() > 0,
        forall|i: int| 0 <= i < texts.len() ==> (#[trigger] texts[i]).len() > 0,
    ensures
        reply_text(texts).len() > 0,
{
    assert(texts[texts.len() - 1].len() > 0);
}

} // verus!
