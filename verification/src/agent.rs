//! The tool-calling loop: ask the model, run the tool that it calls, hand it the
//! result, until it answers with text.

use crate::json;
use crate::json::{Field, FieldView};
use crate::llm::StreamEvent;
use crate::session;
use crate::session::{Message, MessageView, Role};
use crate::text;
use crate::tools::error;
use crate::tools::error::{ToolError, ToolErrorView};
use crate::tools::registry;
use crate::tools::registry::{Tool, ToolRegistry};
use vstd::prelude::*;

verus! {

/// How many times the model is asked at most.
pub const MAX_ITER: usize = 8;

/// What a model replied.
pub enum Reply {
    /// An answer in text.
    Text(String),
    /// A tool call with the JSON text of its arguments.
    ToolCall { name: String, args: String },
    /// Anything else.
    Other,
}

/// What a [`Reply`] says.
pub enum ReplyView {
    Text(Seq<char>),
    ToolCall { name: Seq<char>, args: Seq<char> },
    Other,
}

impl View for Reply {
    type V = ReplyView;

    open spec fn view(&self) -> ReplyView {
        match self {
            Reply::Text(t) => ReplyView::Text(t@),
            Reply::ToolCall { name, args } => ReplyView::ToolCall { name: name@, args: args@ },
            Reply::Other => ReplyView::Other,
        }
    }
}

/// The reply that an output stands for, given what it is as a JSON object.
pub open spec fn reply_of(fields: Option<Seq<FieldView>>) -> ReplyView {
    match fields {
        None => ReplyView::Other,
        Some(f) => {
            let kind = json::string_at(f, "type"@);
            if kind == Some("text"@) {
                ReplyView::Text(json::string_or_empty(f, "content"@))
            } else if kind == Some("tool_call"@) {
                ReplyView::ToolCall {
                    name: json::string_or_empty(f, "name"@),
                    args: json::text_at(f, "args"@),
                }
            } else {
                ReplyView::Other
            }
        },
    }
}

/// Reads the reply from what the output is as a JSON object.
pub fn read_reply(fields: &Option<Vec<Field>>) -> (r: Reply)
    ensures
        r@ == reply_of(json::object_view(*fields)),
{
    match fields {
        None => Reply::Other,
        Some(f) => match json::get_string(f, "type") {
            None => Reply::Other,
            Some(kind) => {
                if text::same(kind.as_str(), "text") {
                    Reply::Text(json::get_string_or_empty(f, "content"))
                } else if text::same(kind.as_str(), "tool_call") {
                    Reply::ToolCall {
                        name: json::get_string_or_empty(f, "name"),
                        args: json::get_text(f, "args"),
                    }
                } else {
                    Reply::Other
                }
            },
        },
    }
}

/// What the loop waits for.
pub enum Phase {
    /// The output of the model.
    Model,
    /// The user's word on a tool call.
    Confirmation { name: String, args: String },
    /// The result of a tool.
    Tool { name: String },
    /// Nothing any more.
    Finished,
}

/// What a [`Phase`] says.
pub enum PhaseView {
    Model,
    Confirmation { name: Seq<char>, args: Seq<char> },
    Tool { name: Seq<char> },
    Finished,
}

impl View for Phase {
    type V = PhaseView;

    open spec fn view(&self) -> PhaseView {
        match self {
            Phase::Model => PhaseView::Model,
            Phase::Confirmation { name, args } => PhaseView::Confirmation {
                name: name@,
                args: args@,
            },
            Phase::Tool { name } => PhaseView::Tool { name: name@ },
            Phase::Finished => PhaseView::Finished,
        }
    }
}

/// What the loop has done next.
pub enum Action {
    /// Run the model on the messages.
    Infer,
    /// Ask the user to confirm a tool call.
    Confirm { name: String, args: String },
    /// Run a tool.
    Execute { name: String, args: String },
    /// Send the text, then end the reply.
    Answer(String),
    /// End the reply.
    Stop,
}

/// What an [`Action`] says.
pub enum ActionView {
    Infer,
    Confirm { name: Seq<char>, args: Seq<char> },
    Execute { name: Seq<char>, args: Seq<char> },
    Answer(Seq<char>),
    Stop,
}

impl View for Action {
    type V = ActionView;

    open spec fn view(&self) -> ActionView {
        match self {
            Action::Infer => ActionView::Infer,
            Action::Confirm { name, args } => ActionView::Confirm { name: name@, args: args@ },
            Action::Execute { name, args } => ActionView::Execute { name: name@, args: args@ },
            Action::Answer(t) => ActionView::Answer(t@),
            Action::Stop => ActionView::Stop,
        }
    }
}

/// The loop between two actions.
#[verifier::ext_equal]
pub struct LoopView {
    pub messages: Seq<MessageView>,
    /// How many times the model may still be asked.
    pub left: nat,
    pub phase: PhaseView,
}

/// What happens to the loop.
pub enum EventView {
    /// The model's output came, or the user cancelled while it was coming.
    Output { text: Seq<char>, cancelled: bool },
    /// The user confirmed the tool call or did not.
    Confirmed(bool),
    /// The tool ended, and the user may have cancelled meanwhile.
    Result { outcome: Result<Seq<char>, ToolErrorView>, cancelled: bool },
}

pub open spec fn stopped(st: LoopView) -> LoopView {
    LoopView { phase: PhaseView::Finished, ..st }
}

/// The model is asked once more, unless the user cancelled or it was asked often enough.
pub open spec fn ask(st: LoopView, cancelled: bool) -> (LoopView, ActionView) {
    if cancelled || st.left == 0 {
        (stopped(st), ActionView::Stop)
    } else {
        (
            LoopView { left: (st.left - 1) as nat, phase: PhaseView::Model, ..st },
            ActionView::Infer,
        )
    }
}

/// What follows a reply: text is the answer, a tool that changes nothing runs, any
/// other waits for confirmation, and what is no reply is handed on as it came.
pub open spec fn on_reply(
    tools: Seq<Tool>,
    st: LoopView,
    output: Seq<char>,
    reply: ReplyView,
) -> (LoopView, ActionView) {
    match reply {
        ReplyView::Text(t) => (stopped(st), ActionView::Answer(t)),
        ReplyView::ToolCall { name, args } => if registry::destructive(tools, name) {
            (
                LoopView { phase: PhaseView::Confirmation { name, args }, ..st },
                ActionView::Confirm { name, args },
            )
        } else {
            (
                LoopView { phase: PhaseView::Tool { name }, ..st },
                ActionView::Execute { name, args },
            )
        },
        ReplyView::Other => (stopped(st), ActionView::Answer(output)),
    }
}

/// The message that hands a tool's result to the model.
pub open spec fn result_message(
    name: Seq<char>,
    outcome: Result<Seq<char>, ToolErrorView>,
) -> MessageView {
    let result = match outcome {
        Ok(r) => r,
        Err(e) => "[tool error: "@ + error::error_text(e) + "]"@,
    };
    session::said(Role::User, "[Tool: "@ + name + "]\n"@ + result)
}

/// What follows an event. An event that the loop does not wait for changes nothing
/// and stops it.
pub open spec fn next(tools: Seq<Tool>, st: LoopView, e: EventView) -> (LoopView, ActionView) {
    match (st.phase, e) {
        (PhaseView::Model, EventView::Output { text, cancelled }) => if cancelled {
            (stopped(st), ActionView::Stop)
        } else {
            on_reply(tools, st, text, reply_of(json::json_object(text::trimmed(text))))
        },
        (PhaseView::Confirmation { name, args }, EventView::Confirmed(yes)) => if yes {
            (
                LoopView { phase: PhaseView::Tool { name }, ..st },
                ActionView::Execute { name, args },
            )
        } else {
            (
                stopped(st),
                ActionView::Answer("Tool call `"@ + name + "` was not confirmed."@),
            )
        },
        (PhaseView::Tool { name }, EventView::Result { outcome, cancelled }) => ask(
            LoopView { messages: st.messages.push(result_message(name, outcome)), ..st },
            cancelled,
        ),
        _ => (stopped(st), ActionView::Stop),
    }
}

/// The loop at its start: the messages are known and the model was not asked yet.
pub open spec fn initial(messages: Seq<MessageView>) -> LoopView {
    LoopView { messages, left: MAX_ITER as nat, phase: PhaseView::Finished }
}

/// Drives the tool-calling loop. Each method takes what happened and says what to do.
pub struct AgentLoop {
    tools: ToolRegistry,
    messages: Vec<Message>,
    left: usize,
    phase: Phase,
}

impl View for AgentLoop {
    type V = LoopView;

    closed spec fn view(&self) -> LoopView {
        LoopView {
            messages: session::message_views(self.messages@),
            left: self.left as nat,
            phase: self.phase@,
        }
    }
}

impl AgentLoop {
    /// The registered tools.
    pub closed spec fn tools(&self) -> Seq<Tool> {
        self.tools@
    }

    pub fn new(tools: ToolRegistry, messages: Vec<Message>) -> (r: Self)
        ensures
            r.tools() == tools@,
            r@ == initial(session::message_views(messages@)),
    {
        AgentLoop { tools, messages, left: MAX_ITER, phase: Phase::Finished }
    }

    /// The messages to run the model on.
    pub fn messages(&self) -> (r: &Vec<Message>)
        ensures
            session::message_views(r@) == self@.messages,
    {
        &self.messages
    }

    /// Hands out the tools again.
    pub fn registry(&self) -> (r: &ToolRegistry)
        ensures
            r@ == self.tools(),
    {
        &self.tools
    }

    /// Starts the loop.
    pub fn start(&mut self, cancelled: bool) -> (r: Action)
        ensures
            (final(self)@, r@) == ask(old(self)@, cancelled),
            final(self).tools() == old(self).tools(),
    {
        if cancelled || self.left == 0 {
            self.phase = Phase::Finished;
            Action::Stop
        } else {
            self.left = self.left - 1;
            self.phase = Phase::Model;
            Action::Infer
        }
    }

    /// What follows a reply to the model's `output`.
    pub fn on_reply(&mut self, output: String, reply: Reply) -> (r: Action)
        ensures
            (final(self)@, r@) == on_reply(old(self).tools(), old(self)@, output@, reply@),
            final(self).tools() == old(self).tools(),
    {
        match reply {
            Reply::Text(t) => {
                self.phase = Phase::Finished;
                Action::Answer(t)
            },
            Reply::ToolCall { name, args } => {
                if self.tools.is_destructive(name.as_str()) {
                    self.phase = Phase::Confirmation { name: name.clone(), args: args.clone() };
                    Action::Confirm { name, args }
                } else {
                    self.phase = Phase::Tool { name: name.clone() };
                    Action::Execute { name, args }
                }
            },
            Reply::Other => {
                self.phase = Phase::Finished;
                Action::Answer(output)
            },
        }
    }

    /// The model's output is complete.
    pub fn output(&mut self, text: String, cancelled: bool) -> (r: Action)
        ensures
            (final(self)@, r@) == next(
                old(self).tools(),
                old(self)@,
                EventView::Output { text: text@, cancelled },
            ),
            final(self).tools() == old(self).tools(),
    {
        match &self.phase {
            Phase::Model => {
                if cancelled {
                    self.phase = Phase::Finished;
                    return Action::Stop;
                }
                let fields = json::read_object(text::trim(text.as_str()));
                let reply = read_reply(&fields);
                self.on_reply(text, reply)
            },
            _ => {
                self.phase = Phase::Finished;
                Action::Stop
            },
        }
    }

    /// The user confirmed the tool call or did not.
    pub fn confirmed(&mut self, yes: bool) -> (r: Action)
        ensures
            (final(self)@, r@) == next(old(self).tools(), old(self)@, EventView::Confirmed(yes)),
            final(self).tools() == old(self).tools(),
    {
        let (name, args) = match &self.phase {
            Phase::Confirmation { name, args } => (name.clone(), args.clone()),
            _ => {
                self.phase = Phase::Finished;
                return Action::Stop;
            },
        };
        if yes {
            self.phase = Phase::Tool { name: name.clone() };
            Action::Execute { name, args }
        } else {
            self.phase = Phase::Finished;
            let mut t = "Tool call `".to_string();
            t.append(name.as_str());
            t.append("` was not confirmed.");
            Action::Answer(t)
        }
    }

    /// The tool ended with a text or an error.
    pub fn tool_result(&mut self, outcome: Result<String, ToolError>, cancelled: bool) -> (r: Action)
        ensures
            (final(self)@, r@) == next(
                old(self).tools(),
                old(self)@,
                EventView::Result { outcome: error::outcome(outcome), cancelled },
            ),
            final(self).tools() == old(self).tools(),
    {
        let name = match &self.phase {
            Phase::Tool { name } => name.clone(),
            _ => {
                self.phase = Phase::Finished;
                return Action::Stop;
            },
        };
        let mut t = "[Tool: ".to_string();
        t.append(name.as_str());
        t.append("]\n");
        match outcome {
            Ok(s) => {
                t.append(s.as_str());
            },
            Err(e) => {
                let ghost head = t@;
                t.append("[tool error: ");
                t.append(e.message().as_str());
                t.append("]");
                assert(t@ =~= head + ("[tool error: "@ + error::error_text(e@) + "]"@));
            },
        }
        let m = Message::user(t.as_str());
        self.messages.push(m);
        assert(self@.messages =~= old(self)@.messages.push(m@));
        self.start(cancelled)
    }
}

/// Appends a streamed piece to the output so far; says whether the output is complete.
pub fn absorb(buf: &mut String, ev: &StreamEvent) -> (r: bool)
    ensures
        final(buf)@ == old(buf)@ + ev.delta@,
        r == ev.done,
{
    buf.append(ev.delta.as_str());
    ev.done
}

/// The actions of a loop from a state on, one for each event.
pub open spec fn run(tools: Seq<Tool>, st: LoopView, events: Seq<EventView>) -> Seq<ActionView>
    decreases events.len(),
{
    if events.len() == 0 {
        Seq::empty()
    } else {
        let (after, action) = next(tools, st, events[0]);
        seq![action] + run(tools, after, events.drop_first())
    }
}

/// How often the model is asked.
pub open spec fn infers(actions: Seq<ActionView>) -> nat
    decreases actions.len(),
{
    if actions.len() == 0 {
        0
    } else {
        infers(actions.drop_first()) + if actions[0] is Infer {
            1nat
        } else {
            0nat
        }
    }
}

/// However the events come, the model is asked no more often than the state allows.
pub proof fn law_model_calls_are_bounded(tools: Seq<Tool>, st: LoopView, events: Seq<EventView>)
    ensures
        infers(run(tools, st, events)) <= st.left,
    decreases events.len(),
{
    if events.len() > 0 {
        let (after, action) = next(tools, st, events[0]);
        law_model_calls_are_bounded(tools, after, events.drop_first());
        let rest = run(tools, after, events.drop_first());
        assert((seq![action] + rest).drop_first() =~= rest);
    }
}

/// A whole run, from its start, asks the model at most eight times.
pub proof fn law_at_most_eight_model_calls(
    tools: Seq<Tool>,
    messages: Seq<MessageView>,
    cancelled: bool,
    events: Seq<EventView>,
)
    ensures
        ({
            let (st, first) = ask(initial(messages), cancelled);
            infers(seq![first] + run(tools, st, events)) <= MAX_ITER
        }),
{
    let (st, first) = ask(initial(messages), cancelled);
    law_model_calls_are_bounded(tools, st, events);
    let rest = run(tools, st, events);
    assert((seq![first] + rest).drop_first() =~= rest);
}

/// A tool that can change something runs only when the loop was waiting for the
/// user's word on exactly this call and the user said yes.
pub proof fn law_destructive_tools_are_confirmed(tools: Seq<Tool>, st: LoopView, e: EventView)
    ensures
        next(tools, st, e).1 matches ActionView::Execute { name, args } ==> (
        registry::destructive(tools, name) ==> e == EventView::Confirmed(true) && st.phase
            == PhaseView::Confirmation { name, args }),
{
}

/// Once the loop has answered or stopped it does nothing more, whatever happens.
pub proof fn law_finished_stays_finished(tools: Seq<Tool>, st: LoopView, e: EventView)
    ensures
        next(tools, st, e).1 is Answer || next(tools, st, e).1 is Stop <==> next(
            tools,
            st,
            e,
        ).0.phase is Finished,
        st.phase is Finished ==> next(tools, st, e) == (st, ActionView::Stop),
{
}

/// A cancelled run does not ask the model and runs no tool.
pub proof fn law_cancelled_does_nothing(tools: Seq<Tool>, st: LoopView, text: Seq<char>)
    ensures
        ask(st, true).1 is Stop,
        next(tools, st, EventView::Output { text, cancelled: true }).1 is Stop,
{
}

/// Nothing that was said is lost: whatever happens, the messages so far are the beginning of
/// the messages afterwards, and only a tool's result adds to them.
pub proof fn law_messages_are_kept(tools: Seq<Tool>, st: LoopView, e: EventView)
    ensures
        ({
            let after = next(tools, st, e).0.messages;
            &&& after.len() >= st.messages.len()
            &&& after.take(st.messages.len() as int) == st.messages
            &&& after.len() > st.messages.len() ==> e is Result && st.phase is Tool && after.len()
                == st.messages.len() + 1
        }),
        ask(st, true).0.messages == st.messages && ask(st, false).0.messages == st.messages,
{
    let after = next(tools, st, e).0.messages;
    assert(after.take(st.messages.len() as int) =~= st.messages);
}

/// The result of the tool that the loop waits for reaches the model whole: it is the last
/// message, from the user, with the name of the tool, and the model is asked again with it
/// unless the user cancelled or the model was asked often enough.
pub proof fn law_result_reaches_the_model(
    tools: Seq<Tool>,
    st: LoopView,
    name: Seq<char>,
    outcome: Result<Seq<char>, ToolErrorView>,
    cancelled: bool,
)
    requires
        st.phase == (PhaseView::Tool { name }),
    ensures
        ({
            let (after, action) = next(tools, st, EventView::Result { outcome, cancelled });
            let m = after.messages.last();
            &&& after.messages.len() == st.messages.len() + 1
            &&& m.role == Role::User
            &&& outcome matches Ok(r) ==> m.content == "[Tool: "@ + name + "]\n"@ + r
            &&& outcome matches Err(e) ==> m.content == "[Tool: "@ + name + "]\n"@ + (
            "[tool error: "@ + error::error_text(e) + "]"@)
            &&& action is Infer <==> !cancelled && st.left > 0
            &&& action is Infer ==> after.left == st.left - 1 && after.phase is Model
            &&& !(action is Infer) ==> action is Stop
        }),
{
}

/// A reply is taken at its word: a text is the answer, the whole of it; a tool call is run, or
/// put before the user, with the name and the arguments that it has; and an output that is
/// neither is the answer as it came.
pub proof fn law_reply_is_taken_at_its_word(
    tools: Seq<Tool>,
    st: LoopView,
    output: Seq<char>,
    f: Seq<FieldView>,
)
    requires
        st.phase is Model,
        json::json_object(text::trimmed(output)) == Some(f),
    ensures
        ({
            let (after, action) = next(tools, st, EventView::Output { text: output, cancelled: false });
            let kind = json::string_at(f, "type"@);
            &&& kind == Some("text"@) && json::string_at(f, "content"@) is Some ==> action
                == ActionView::Answer(json::string_at(f, "content"@)->0)
            &&& kind == Some("text"@) && json::string_at(f, "content"@) is None ==> (
            action matches ActionView::Answer(t) && t.len() == 0)
            &&& kind == Some("tool_call"@) ==> {
                let name = json::string_or_empty(f, "name"@);
                let args = json::text_at(f, "args"@);
                &&& registry::destructive(tools, name) ==> action == (ActionView::Confirm {
                    name,
                    args,
                }) && after.phase == (PhaseView::Confirmation { name, args })
                &&& !registry::destructive(tools, name) ==> action == (ActionView::Execute {
                    name,
                    args,
                }) && after.phase == (PhaseView::Tool { name })
            }
            &&& kind != Some("text"@) && kind != Some("tool_call"@) ==> action
                == ActionView::Answer(output)
        }),
{
    reveal_strlit("text");
    reveal_strlit("tool_call");
    assert("text"@.len() == 4 && "tool_call"@.len() == 9);
}

/// An output that is no JSON object is the answer as it came, to the last character.
pub proof fn law_plain_output_is_the_answer(tools: Seq<Tool>, st: LoopView, output: Seq<char>)
    requires
        st.phase is Model,
        json::json_object(text::trimmed(output)) is None,
    ensures
        next(tools, st, EventView::Output { text: output, cancelled: false }).1
            == ActionView::Answer(output),
{
}

/// The user's word decides: yes runs exactly the call that was put before them, no ends the
/// run with an answer that names the tool.
pub proof fn law_word_of_the_user(
    tools: Seq<Tool>,
    st: LoopView,
    name: Seq<char>,
    args: Seq<char>,
)
    requires
        st.phase == (PhaseView::Confirmation { name, args }),
    ensures
        next(tools, st, EventView::Confirmed(true)) == (
            (LoopView { phase: (PhaseView::Tool { name }), ..st }),
            (ActionView::Execute { name, args }),
        ),
        next(tools, st, EventView::Confirmed(false)).0.phase is Finished,
        next(tools, st, EventView::Confirmed(false)).1 == ActionView::Answer(
            "Tool call `"@ + name + "` was not confirmed."@,
        ),
{
}

/// The messages of a loop after some events.
pub open spec fn after_events(tools: Seq<Tool>, st: LoopView, events: Seq<EventView>) -> LoopView
    decreases events.len(),
{
    if events.len() == 0 {
        st
    } else {
        next(tools, after_events(tools, st, events.drop_last()), events.last()).0
    }
}

/// However a run goes, the messages that it started with are the beginning of those that it
/// ends with, so that the model always sees the question.
pub proof fn law_question_stays_in_sight(
    tools: Seq<Tool>,
    messages: Seq<MessageView>,
    cancelled: bool,
    events: Seq<EventView>,
)
    ensures
        ({
            let st = ask(initial(messages), cancelled).0;
            let after = after_events(tools, st, events).messages;
            after.len() >= messages.len() && after.take(messages.len() as int) == messages
        }),
    decreases events.len(),
{
    let st = ask(initial(messages), cancelled).0;
    if events.len() == 0 {
        assert(messages.take(messages.len() as int) =~= messages);
    } else {
        law_question_stays_in_sight(tools, messages, cancelled, events.drop_last());
        let before = after_events(tools, st, events.drop_last());
        law_messages_are_kept(tools, before, events.last());
        let after = after_events(tools, st, events).messages;
        assert(after.take(messages.len() as int) =~= after.take(
            before.messages.len() as int,
        ).take(messages.len() as int));
    }
}

} // verus!
