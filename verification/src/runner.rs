//! Answering a single prompt without a conversation.

use crate::context;
use crate::session;
use crate::session::{ConversationHistory, Message, MessageView, Role};
use vstd::prelude::*;

verus! {

/// The messages for a single prompt: the system prompt, and the prompt where the window has
/// room for it.
pub open spec fn prompt_messages(
    prompt: Seq<char>,
    window: usize,
    skill: Seq<char>,
    tools: Seq<char>,
) -> Seq<MessageView> {
    session::assembled(
        seq![session::said(Role::User, prompt)],
        window as nat,
        skill + "\n"@ + tools,
    )
}

/// The messages for a single prompt, given the prompt of the skill and the part of the
/// system prompt that lists the tools.
pub fn messages_for(prompt: &str, window: usize, skill: &str, tools: &str) -> (r: Vec<Message>)
    ensures
        session::message_views(r@) == prompt_messages(prompt@, window, skill@, tools@),
{
    let mut history = ConversationHistory::new(window);
    history.push(Message::user(prompt));
    assert(history@.messages =~= seq![session::said(Role::User, prompt@)]);
    history.assemble(context::full_prompt(skill, tools).as_str())
}

/// The question whether a tool may run.
pub fn confirm_question(tool_name: &str, args_summary: &str) -> (r: String)
    ensures
        r@ == "Run "@ + tool_name@ + " ("@ + args_summary@ + ")? [y/N] "@,
{
    let mut q = "Run ".to_string();
    q.append(tool_name);
    q.append(" (");
    q.append(args_summary);
    q.append(")? [y/N] ");
    q
}

/// The window of a session: the one that was asked for, else that of the backend.
pub fn session_window(asked: Option<usize>, backend: usize) -> (r: usize)
    ensures
        r == match asked {
            Some(n) => n,
            None => backend,
        },
{
    match asked {
        Some(n) => n,
        None => backend,
    }
}

/// A single prompt reaches the model whole where it fits, behind the words of the skill and the
/// list of the tools.
pub proof fn law_prompt_reaches_the_model(
    prompt: Seq<char>,
    window: usize,
    skill: Seq<char>,
    tools: Seq<char>,
)
    requires
        session::cost(skill + "\n"@ + tools) + session::cost(prompt) <= window,
    ensures
        prompt_messages(prompt, window, skill, tools) == seq![
            (MessageView { role: Role::System, content: skill + "\n"@ + tools }),
            (MessageView { role: Role::User, content: prompt }),
        ],
{
    let ms = seq![session::said(Role::User, prompt)];
    assert(ms.drop_last() =~= Seq::<MessageView>::empty());
    assert(session::total_cost(ms.drop_last()) == 0);
    assert(session::total_cost(ms) == session::cost(prompt));
    session::law_short_conversations_are_whole(ms, window as nat, skill + "\n"@ + tools);
    assert(prompt_messages(prompt, window, skill, tools) =~= seq![
        (MessageView { role: Role::System, content: skill + "\n"@ + tools }),
        (MessageView { role: Role::User, content: prompt }),
    ]);
}

} // verus!
