//! The conversation in the terminal: keys, commands and what streams in.

use crate::cli::BackendKind;
use crate::context;
use crate::session;
use crate::session::{ConversationHistory, HistoryView, Message, MessageView, Role};
use crate::text;
use crate::text_facts;
use crate::ui::chat;
use crate::ui::chat::ChatWidget;
use crate::ui::input;
use crate::ui::input::{InputView, InputWidget};
use crate::ui::status::GenState;
use vstd::prelude::*;

verus! {

/// Whether a reply is coming in.
pub enum Generating {
    Idle,
    /// A reply is coming in; this much of it is there.
    Active { partial: String },
    /// A tool waits for the user's word.
    AwaitingConfirm { tool_name: String, args_summary: String },
}

/// What a [`Generating`] says.
pub enum GeneratingView {
    Idle,
    Active { partial: Seq<char> },
    AwaitingConfirm { tool_name: Seq<char>, args_summary: Seq<char> },
}

impl View for Generating {
    type V = GeneratingView;

    open spec fn view(&self) -> GeneratingView {
        match self {
            Generating::Idle => GeneratingView::Idle,
            Generating::Active { partial } => GeneratingView::Active { partial: partial@ },
            Generating::AwaitingConfirm { tool_name, args_summary } =>
                GeneratingView::AwaitingConfirm {
                    tool_name: tool_name@,
                    args_summary: args_summary@,
                },
        }
    }
}

/// A key.
#[derive(Clone, Copy, Debug, PartialEq, Eq, Structural)]
pub enum Key {
    Char(char),
    PageUp,
    PageDown,
    Up,
    Down,
    Esc,
    Enter,
    Other,
}

/// A key with the modifiers that matter.
#[derive(Clone, Copy, Debug, PartialEq, Eq, Structural)]
pub struct KeyPress {
    pub key: Key,
    /// Control is held, and nothing else.
    pub control: bool,
    /// Shift is held, and nothing else.
    pub shift: bool,
}

/// What a key leads to beyond the state of the session.
#[derive(Clone, Copy, Debug, PartialEq, Eq, Structural)]
pub enum KeyEffect {
    /// Nothing.
    Nothing,
    /// Stop the model.
    Cancel,
    /// Stop the model and refuse the tool.
    CancelAndDeny,
    /// Tell the tool loop the user's word.
    Answer(bool),
    /// Empty the input field.
    ClearInput,
    /// Send what stands in the input field.
    Submit,
    /// Hand the key to the input field.
    Edit,
}

/// A session in the terminal.
#[verifier::ext_equal]
pub struct AppView {
    pub running: bool,
    pub session: HistoryView,
    pub backend: BackendKind,
    pub model: Seq<char>,
    pub skill: Seq<char>,
    pub offset: u16,
    pub input: InputView,
    pub generating: GeneratingView,
    pub connecting: bool,
    /// The user scrolled up: new text does not move the view.
    pub user_scrolled: bool,
}

/// The session with one more message from the assistant.
pub open spec fn told(st: AppView, t: Seq<char>) -> AppView {
    AppView {
        session: HistoryView {
            messages: st.session.messages.push(session::said(Role::Assistant, t)),
            ..st.session
        },
        ..st
    }
}

/// The view `n` lines further up.
pub open spec fn up(st: AppView, n: u16) -> AppView {
    AppView { user_scrolled: true, offset: chat::raised(st.offset, n), ..st }
}

/// The view `n` lines further down; at the end it follows new text again.
pub open spec fn down(st: AppView, n: u16) -> AppView {
    let offset = chat::lowered(st.offset, n);
    AppView { offset, user_scrolled: st.user_scrolled && offset != 0, ..st }
}

/// The arrow keys move the view rather than the cursor of the input field.
pub open spec fn arrows_scroll(st: AppView) -> bool {
    let t = input::input_text(st.input.lines);
    text::blank(t) || text::first_char(t, '\n') is None
}

pub open spec fn is_char(k: Key, lower: char, upper: char) -> bool {
    k == Key::Char(lower) || k == Key::Char(upper)
}

/// What a key does while a tool waits for the user's word: only the answers count.
pub open spec fn on_answer_key(st: AppView, k: KeyPress) -> (AppView, KeyEffect) {
    if k.control && is_char(k.key, 'c', 'C') {
        (AppView { generating: GeneratingView::Idle, ..st }, KeyEffect::CancelAndDeny)
    } else if is_char(k.key, 'y', 'Y') {
        (
            AppView { generating: GeneratingView::Active { partial: Seq::empty() }, ..st },
            KeyEffect::Answer(true),
        )
    } else if is_char(k.key, 'n', 'N') || k.key == Key::Esc {
        (
            AppView { generating: GeneratingView::Active { partial: Seq::empty() }, ..st },
            KeyEffect::Answer(false),
        )
    } else {
        (st, KeyEffect::Nothing)
    }
}

/// What a key does.
pub open spec fn on_key(st: AppView, k: KeyPress) -> (AppView, KeyEffect) {
    if st.generating is AwaitingConfirm {
        on_answer_key(st, k)
    } else if k.control && is_char(k.key, 'c', 'C') {
        if st.generating is Active {
            (AppView { generating: GeneratingView::Idle, ..st }, KeyEffect::Cancel)
        } else {
            (AppView { running: false, ..st }, KeyEffect::Nothing)
        }
    } else if k.control && is_char(k.key, 'd', 'D') {
        (AppView { running: false, ..st }, KeyEffect::Nothing)
    } else if k.key == Key::PageUp {
        (up(st, 10), KeyEffect::Nothing)
    } else if k.key == Key::PageDown {
        (down(st, 10), KeyEffect::Nothing)
    } else if k.key == Key::Up && arrows_scroll(st) {
        (up(st, 1), KeyEffect::Nothing)
    } else if k.key == Key::Down && arrows_scroll(st) {
        (down(st, 1), KeyEffect::Nothing)
    } else if k.key == Key::Esc {
        (
            AppView { input: InputView { lines: input::no_lines(), ..st.input }, ..st },
            KeyEffect::ClearInput,
        )
    } else if k.key == Key::Enter && !k.shift {
        (st, KeyEffect::Submit)
    } else {
        (st, KeyEffect::Edit)
    }
}

/// What the user sent.
pub enum Submission {
    /// Nothing, or at a time when a reply is coming in.
    Nothing,
    /// A command.
    Command(String),
    /// A message to the model.
    Message(String),
}

/// What a [`Submission`] says.
pub enum SubmissionView {
    Nothing,
    Command(Seq<char>),
    Message(Seq<char>),
}

impl View for Submission {
    type V = SubmissionView;

    open spec fn view(&self) -> SubmissionView {
        match self {
            Submission::Nothing => SubmissionView::Nothing,
            Submission::Command(c) => SubmissionView::Command(c@),
            Submission::Message(m) => SubmissionView::Message(m@),
        }
    }
}

/// What the input field holds is sent, unless a reply is coming in.
pub open spec fn on_submit(st: AppView) -> (AppView, SubmissionView) {
    if !(st.generating is Idle) {
        (st, SubmissionView::Nothing)
    } else {
        let t = text::trimmed(input::input_text(st.input.lines));
        let after = AppView { input: input::sent(st.input), ..st };
        if t.len() == 0 {
            (after, SubmissionView::Nothing)
        } else if text::heads(t, '/') {
            (after, SubmissionView::Command(t))
        } else {
            (after, SubmissionView::Message(t))
        }
    }
}

/// The session once a message went to the model, and the messages that the model gets.
pub open spec fn on_send(st: AppView, message: Seq<char>, tools: Seq<char>) -> (
    AppView,
    Seq<MessageView>,
) {
    let history = HistoryView {
        messages: st.session.messages.push(session::said(Role::User, message)),
        ..st.session
    };
    (
        AppView {
            session: history,
            offset: 0,
            generating: GeneratingView::Active { partial: Seq::empty() },
            ..st
        },
        session::assembled(
            history.messages,
            history.context_window as nat,
            st.skill + "\n"@ + tools,
        ),
    )
}

/// What the help command answers.
pub const HELP: &'static str = "/clear          — clear conversation
/model [name]   — show or switch the active model
/add <path>     — attach a file as context
/help           — show this message
/quit           — exit axon
@<path> <msg>   — prefix your message with a file's contents
Shift+Enter     — insert newline
↑ / ↓           — navigate input history
PgUp / PgDn     — scroll chat
Ctrl+C          — cancel generation / quit";

/// What a command leads to beyond the state of the session.
pub enum CommandEffect {
    Nothing,
    /// Bring up the backend for another model.
    SwitchModel { name: String },
    /// Read a file.
    ReadFile { path: String },
}

/// What a [`CommandEffect`] says.
pub enum CommandEffectView {
    Nothing,
    SwitchModel { name: Seq<char> },
    ReadFile { path: Seq<char> },
}

impl View for CommandEffect {
    type V = CommandEffectView;

    open spec fn view(&self) -> CommandEffectView {
        match self {
            CommandEffect::Nothing => CommandEffectView::Nothing,
            CommandEffect::SwitchModel { name } => CommandEffectView::SwitchModel { name: name@ },
            CommandEffect::ReadFile { path } => CommandEffectView::ReadFile { path: path@ },
        }
    }
}

/// The name of a command and what follows it, if anything does.
pub open spec fn command_parts(cmd: Seq<char>) -> (Seq<char>, Option<Seq<char>>) {
    match text::split_pair(cmd, ' ') {
        Some((name, rest)) => (name, Some(text::trimmed(rest))),
        None => (cmd, None),
    }
}

/// What a command does.
pub open spec fn on_command(st: AppView, cmd: Seq<char>) -> (AppView, CommandEffectView) {
    let (name, arg) = command_parts(cmd);
    if name == "/model"@ {
        if arg is Some && arg->0.len() > 0 {
            (
                AppView { connecting: st.connecting || st.backend == BackendKind::Local, ..st },
                CommandEffectView::SwitchModel { name: arg->0 },
            )
        } else {
            (
                told(st, "Current model: `"@ + st.model + "`\nUsage: /model <name>"@),
                CommandEffectView::Nothing,
            )
        }
    } else if name == "/quit"@ || name == "/exit"@ {
        (AppView { running: false, ..st }, CommandEffectView::Nothing)
    } else if name == "/clear"@ {
        (
            AppView {
                session: HistoryView {
                    messages: session::system_only(st.session.messages),
                    ..st.session
                },
                offset: 0,
                ..st
            },
            CommandEffectView::Nothing,
        )
    } else if name == "/help"@ {
        (told(st, HELP@), CommandEffectView::Nothing)
    } else if name == "/add"@ {
        match arg {
            Some(path) => (st, CommandEffectView::ReadFile { path }),
            None => (told(st, "Usage: /add <file-path>"@), CommandEffectView::Nothing),
        }
    } else {
        (
            told(st, "Unknown command: "@ + cmd + "\nType /help for available commands."@),
            CommandEffectView::Nothing,
        )
    }
}

/// The session once the backend for a model is there, with its context window, or could
/// not be brought up.
pub open spec fn on_switched(st: AppView, name: Seq<char>, outcome: Result<usize, Seq<char>>) -> AppView {
    let st = AppView { connecting: false, ..st };
    match outcome {
        Ok(cw) => told(
            AppView {
                model: name,
                session: HistoryView { context_window: cw, ..st.session },
                ..st
            },
            "Switched to model `"@ + name + "`."@,
        ),
        Err(e) => told(st, "[error starting daemon] "@ + e),
    }
}

/// How a file is handed to the model.
pub open spec fn file_note(path: Seq<char>, contents: Seq<char>) -> Seq<char> {
    "File `"@ + path + "`:\n```\n"@ + contents + "\n```"@
}

/// What is said once a file was added.
pub open spec fn file_added(path: Seq<char>) -> Seq<char> {
    "Added `"@ + path + "` to context."@
}

/// The session once a file was read, which puts it before the model, or could not be.
pub open spec fn on_file(st: AppView, path: Seq<char>, outcome: Result<Seq<char>, Seq<char>>) -> AppView {
    match outcome {
        Ok(contents) => told(
            AppView {
                session: HistoryView {
                    messages: st.session.messages.push(
                        session::said(Role::User, file_note(path, contents)),
                    ),
                    ..st.session
                },
                ..st
            },
            file_added(path),
        ),
        Err(e) => told(st, "[error reading "@ + path + "] "@ + e),
    }
}

/// A piece of a reply came in.
pub open spec fn on_delta(st: AppView, delta: Seq<char>) -> AppView {
    AppView {
        generating: match st.generating {
            GeneratingView::Active { partial } => GeneratingView::Active {
                partial: partial + delta,
            },
            other => other,
        },
        offset: if st.user_scrolled {
            st.offset
        } else {
            0
        },
        ..st
    }
}

/// A reply is complete.
pub open spec fn on_done(st: AppView) -> AppView {
    let said = match st.generating {
        GeneratingView::Active { partial } => told(st, partial),
        _ => st,
    };
    AppView { generating: GeneratingView::Idle, user_scrolled: false, offset: 0, ..said }
}

/// A reply failed.
pub open spec fn on_error(st: AppView, e: Seq<char>) -> AppView {
    let said = if st.generating is Idle {
        st
    } else {
        told(st, "[error] "@ + e)
    };
    AppView { generating: GeneratingView::Idle, ..said }
}

/// A tool asks for the user's word, which it gets only while a reply is coming in.
pub open spec fn on_confirm_request(st: AppView, tool: Seq<char>, args: Seq<char>) -> AppView {
    AppView {
        generating: if st.generating is Active {
            GeneratingView::AwaitingConfirm { tool_name: tool, args_summary: args }
        } else {
            GeneratingView::Idle
        },
        ..st
    }
}

/// A session in the terminal.
pub struct App {
    running: bool,
    session: ConversationHistory,
    backend: BackendKind,
    model: String,
    skill: String,
    chat: ChatWidget,
    input: InputWidget,
    generating: Generating,
    connecting: bool,
    user_scrolled: bool,
}

impl View for App {
    type V = AppView;

    closed spec fn view(&self) -> AppView {
        AppView {
            running: self.running,
            session: self.session@,
            backend: self.backend,
            model: self.model@,
            skill: self.skill@,
            offset: self.chat.scroll_offset,
            input: self.input@,
            generating: self.generating@,
            connecting: self.connecting,
            user_scrolled: self.user_scrolled,
        }
    }
}

impl App {
    /// A session with `model`, whose window holds `window` tokens, and the prompt of a skill.
    pub fn new(backend: BackendKind, model: &str, window: usize, skill: String) -> (r: App)
        ensures
            r@ == (AppView {
                running: true,
                session: (HistoryView { messages: Seq::empty(), context_window: window }),
                backend,
                model: model@,
                skill: skill@,
                offset: 0,
                input: (InputView { lines: input::no_lines(), history: Seq::empty() }),
                generating: GeneratingView::Idle,
                connecting: false,
                user_scrolled: false,
            }),
    {
        App {
            running: true,
            session: ConversationHistory::new(window),
            backend,
            model: model.to_string(),
            skill,
            chat: ChatWidget::new(),
            input: InputWidget::new(),
            generating: Generating::Idle,
            connecting: false,
            user_scrolled: false,
        }
    }

    pub fn is_running(&self) -> (r: bool)
        ensures
            r == self@.running,
    {
        self.running
    }

    pub fn model(&self) -> (r: &str)
        ensures
            r@ == self@.model,
    {
        self.model.as_str()
    }

    pub fn chat(&self) -> (r: &ChatWidget)
        ensures
            r.scroll_offset == self@.offset,
    {
        &self.chat
    }

    pub fn generating(&self) -> (r: &Generating)
        ensures
            r@ == self@.generating,
    {
        &self.generating
    }

    /// What the status line says.
    pub fn gen_state(&self) -> (r: GenState)
        ensures
            r == if self@.connecting {
                GenState::Connecting
            } else if self@.generating is Idle {
                GenState::Idle
            } else {
                GenState::Generating
            },
    {
        if self.connecting {
            GenState::Connecting
        } else {
            match &self.generating {
                Generating::Idle => GenState::Idle,
                _ => GenState::Generating,
            }
        }
    }

    /// The part of a reply that has come in, while it is.
    pub fn streaming(&self) -> (r: Option<&str>)
        ensures
            match r {
                Some(p) => self@.generating == (GeneratingView::Active { partial: p@ }),
                None => !(self@.generating is Active),
            },
    {
        match &self.generating {
            Generating::Active { partial } => Some(partial.as_str()),
            _ => None,
        }
    }

    /// The messages on the screen: all but those of the system.
    pub fn display_messages(&self) -> (r: Vec<Message>)
        ensures
            session::message_views(r@) == session::conversation(self@.session.messages),
    {
        let ms = self.session.messages();
        let ghost all = session::message_views(ms@);
        let mut out: Vec<Message> = Vec::new();
        let mut i: usize = 0;
        proof {
            assert(all.take(0) =~= Seq::<MessageView>::empty());
            reveal_with_fuel(Seq::filter, 1);
            assert(session::message_views(out@) =~= session::conversation(all.take(0)));
        }
        while i < ms.len()
            invariant
                i <= ms.len(),
                all == session::message_views(ms@),
                session::message_views(out@) == session::conversation(all.take(i as int)),
            decreases ms.len() - i,
        {
            let ghost before = session::message_views(out@);
            proof {
                assert(all.take(i + 1).drop_last() =~= all.take(i as int));
                assert(all.take(i + 1).last() == ms[i as int]@);
                reveal_with_fuel(Seq::filter, 2);
            }
            if ms[i].role != Role::System {
                out.push(ms[i].clone());
                assert(session::message_views(out@) =~= before.push(ms[i as int]@));
            }
            i += 1;
        }
        assert(all.take(i as int) =~= all);
        out
    }

    /// The input field was edited and holds these lines now.
    pub fn edited(&mut self, lines: Vec<String>)
        ensures
            final(self)@ == (AppView {
                input: (InputView { lines: text::views(lines@), ..old(self)@.input }),
                ..old(self)@
            }),
    {
        self.input.edited(lines);
    }

    fn tell(&mut self, t: &str)
        ensures
            final(self)@ == told(old(self)@, t@),
    {
        self.session.push(Message::assistant(t));
    }

    fn scroll_up(&mut self, n: u16)
        ensures
            final(self)@ == up(old(self)@, n),
    {
        self.user_scrolled = true;
        self.chat.scroll_up(n);
    }

    fn scroll_down(&mut self, n: u16)
        ensures
            final(self)@ == down(old(self)@, n),
    {
        self.chat.scroll_down(n);
        if self.chat.scroll_offset == 0 {
            self.user_scrolled = false;
        }
    }

    /// The mouse wheel was turned.
    pub fn on_wheel(&mut self, upwards: bool)
        ensures
            final(self)@ == if upwards {
                up(old(self)@, 3)
            } else {
                down(old(self)@, 3)
            },
    {
        if upwards {
            self.scroll_up(3);
        } else {
            self.scroll_down(3);
        }
    }

    fn arrows_scroll(&self) -> (r: bool)
        ensures
            r == arrows_scroll(self@),
    {
        let t = self.input.text();
        text::is_blank(t.as_str()) || text::find_char(t.as_str(), '\n').is_none()
    }

    /// The user's word on the waiting tool.
    fn resolve_confirm(&mut self)
        requires
            old(self)@.generating is AwaitingConfirm,
        ensures
            final(self)@ == (AppView {
                generating: (GeneratingView::Active { partial: Seq::empty() }),
                ..old(self)@
            }),
    {
        self.generating = Generating::Active { partial: String::new() };
    }

    fn on_answer_key(&mut self, k: KeyPress) -> (r: KeyEffect)
        requires
            old(self)@.generating is AwaitingConfirm,
        ensures
            (final(self)@, r) == on_answer_key(old(self)@, k),
    {
        if k.control && (k.key == Key::Char('c') || k.key == Key::Char('C')) {
            self.generating = Generating::Idle;
            KeyEffect::CancelAndDeny
        } else if k.key == Key::Char('y') || k.key == Key::Char('Y') {
            self.resolve_confirm();
            KeyEffect::Answer(true)
        } else if k.key == Key::Char('n') || k.key == Key::Char('N') || k.key == Key::Esc {
            self.resolve_confirm();
            KeyEffect::Answer(false)
        } else {
            KeyEffect::Nothing
        }
    }

    /// A key was pressed.
    pub fn on_key(&mut self, k: KeyPress) -> (r: KeyEffect)
        ensures
            (final(self)@, r) == on_key(old(self)@, k),
    {
        match &self.generating {
            Generating::AwaitingConfirm { .. } => {
                return self.on_answer_key(k);
            },
            _ => {},
        }
        if k.control && (k.key == Key::Char('c') || k.key == Key::Char('C')) {
            let active = match &self.generating {
                Generating::Active { .. } => true,
                _ => false,
            };
            if active {
                self.generating = Generating::Idle;
                return KeyEffect::Cancel;
            }
            self.running = false;
            return KeyEffect::Nothing;
        }
        if k.control && (k.key == Key::Char('d') || k.key == Key::Char('D')) {
            self.running = false;
            return KeyEffect::Nothing;
        }
        match k.key {
            Key::PageUp => {
                self.scroll_up(10);
                KeyEffect::Nothing
            },
            Key::PageDown => {
                self.scroll_down(10);
                KeyEffect::Nothing
            },
            Key::Up => {
                if self.arrows_scroll() {
                    self.scroll_up(1);
                    KeyEffect::Nothing
                } else {
                    KeyEffect::Edit
                }
            },
            Key::Down => {
                if self.arrows_scroll() {
                    self.scroll_down(1);
                    KeyEffect::Nothing
                } else {
                    KeyEffect::Edit
                }
            },
            Key::Esc => {
                self.input.clear();
                KeyEffect::ClearInput
            },
            Key::Enter => if k.shift {
                KeyEffect::Edit
            } else {
                KeyEffect::Submit
            },
            _ => KeyEffect::Edit,
        }
    }

    /// Sends what the input field holds, unless a reply is coming in.
    pub fn handle_submit(&mut self) -> (r: Submission)
        ensures
            (final(self)@, r@) == on_submit(old(self)@),
    {
        match &self.generating {
            Generating::Idle => {},
            _ => {
                return Submission::Nothing;
            },
        }
        let sent = self.input.submit();
        let t = text::trim(sent.as_str());
        if t.is_empty() {
            Submission::Nothing
        } else if text::starts_with_char(t, '/') {
            Submission::Command(t.to_string())
        } else {
            Submission::Message(t.to_string())
        }
    }

    /// Puts a message in the history and returns the messages for the model; `tools` is the
    /// part of the system prompt that lists the tools.
    pub fn send(&mut self, message: &str, tools: &str) -> (r: Vec<Message>)
        ensures
            (final(self)@, session::message_views(r@)) == on_send(old(self)@, message@, tools@),
    {
        self.session.push(Message::user(message));
        self.chat.scroll_to_bottom();
        let prompt = context::full_prompt(self.skill.as_str(), tools);
        let messages = self.session.assemble(prompt.as_str());
        self.generating = Generating::Active { partial: String::new() };
        messages
    }

    /// Carries out a command.
    pub fn handle_command(&mut self, cmd: &str) -> (r: CommandEffect)
        ensures
            (final(self)@, r@) == on_command(old(self)@, cmd@),
    {
        let (name, arg) = match text::split_once(cmd, ' ') {
            Some((name, rest)) => (name, Some(text::trim(rest))),
            None => (cmd, None),
        };
        if text::same(name, "/model") {
            match arg {
                Some(model) => {
                    if !model.is_empty() {
                        if self.backend == BackendKind::Local {
                            self.connecting = true;
                        }
                        return CommandEffect::SwitchModel { name: model.to_string() };
                    }
                },
                None => {},
            }
            let mut m = "Current model: `".to_string();
            m.append(self.model.as_str());
            m.append("`\nUsage: /model <name>");
            self.tell(m.as_str());
            CommandEffect::Nothing
        } else if text::same(name, "/quit") || text::same(name, "/exit") {
            self.running = false;
            CommandEffect::Nothing
        } else if text::same(name, "/clear") {
            self.session.clear();
            self.chat.scroll_to_bottom();
            CommandEffect::Nothing
        } else if text::same(name, "/help") {
            self.tell(HELP);
            CommandEffect::Nothing
        } else if text::same(name, "/add") {
            match arg {
                Some(path) => CommandEffect::ReadFile { path: path.to_string() },
                None => {
                    self.tell("Usage: /add <file-path>");
                    CommandEffect::Nothing
                },
            }
        } else {
            let mut m = "Unknown command: ".to_string();
            m.append(cmd);
            m.append("\nType /help for available commands.");
            self.tell(m.as_str());
            CommandEffect::Nothing
        }
    }

    /// The backend for a model is there, with its context window, or could not be brought up.
    pub fn model_switched(&mut self, name: &str, outcome: Result<usize, String>)
        ensures
            final(self)@ == on_switched(
                old(self)@,
                name@,
                match outcome {
                    Ok(cw) => Ok(cw),
                    Err(e) => Err(e@),
                },
            ),
    {
        self.connecting = false;
        match outcome {
            Ok(cw) => {
                self.model = name.to_string();
                self.session.set_context_window(cw);
                let mut m = "Switched to model `".to_string();
                m.append(name);
                m.append("`.");
                self.tell(m.as_str());
            },
            Err(e) => {
                self.tell(text::cat("[error starting daemon] ", e.as_str()).as_str());
            },
        }
    }

    /// A file was read, or could not be.
    pub fn file_read(&mut self, path: &str, outcome: Result<String, String>)
        ensures
            final(self)@ == on_file(
                old(self)@,
                path@,
                match outcome {
                    Ok(c) => Ok(c@),
                    Err(e) => Err(e@),
                },
            ),
    {
        match outcome {
            Ok(contents) => {
                let mut f = "File `".to_string();
                f.append(path);
                f.append("`:\n```\n");
                f.append(contents.as_str());
                f.append("\n```");
                self.session.push(Message::user(f.as_str()));
                let mut m = "Added `".to_string();
                m.append(path);
                m.append("` to context.");
                self.tell(m.as_str());
            },
            Err(e) => {
                let mut m = "[error reading ".to_string();
                m.append(path);
                m.append("] ");
                m.append(e.as_str());
                self.tell(m.as_str());
            },
        }
    }

    /// A piece of a reply came in.
    pub fn stream_delta(&mut self, delta: &str)
        ensures
            final(self)@ == on_delta(old(self)@, delta@),
    {
        let grown: Option<String> = match &self.generating {
            Generating::Active { partial } => Some(text::cat(partial.as_str(), delta)),
            _ => None,
        };
        if let Some(partial) = grown {
            self.generating = Generating::Active { partial };
        }
        if !self.user_scrolled {
            self.chat.scroll_to_bottom();
        }
    }

    /// A reply is complete.
    pub fn stream_done(&mut self)
        ensures
            final(self)@ == on_done(old(self)@),
    {
        let said: Option<String> = match &self.generating {
            Generating::Active { partial } => Some(partial.clone()),
            _ => None,
        };
        if let Some(partial) = said {
            self.tell(partial.as_str());
        }
        self.generating = Generating::Idle;
        self.user_scrolled = false;
        self.chat.scroll_to_bottom();
    }

    /// A reply failed.
    pub fn stream_error(&mut self, e: &str)
        ensures
            final(self)@ == on_error(old(self)@, e@),
    {
        let idle = match &self.generating {
            Generating::Idle => true,
            _ => false,
        };
        if !idle {
            self.tell(text::cat("[error] ", e).as_str());
        }
        self.generating = Generating::Idle;
    }

    /// A tool asks for the user's word; says whether the user will be asked.
    pub fn confirm_request(&mut self, tool_name: String, args_summary: String) -> (r: bool)
        ensures
            r == (old(self)@.generating is Active),
            final(self)@ == on_confirm_request(old(self)@, tool_name@, args_summary@),
    {
        let active = match &self.generating {
            Generating::Active { .. } => true,
            _ => false,
        };
        self.generating = if active {
            Generating::AwaitingConfirm { tool_name, args_summary }
        } else {
            Generating::Idle
        };
        active
    }
}

/// While a tool waits for the user's word, no key ends the session, sends a message or
/// edits the input.
pub proof fn law_waiting_for_an_answer(st: AppView, k: KeyPress)
    requires
        st.generating is AwaitingConfirm,
    ensures
        ({
            let (after, effect) = on_key(st, k);
            &&& after.running == st.running
            &&& after.input == st.input
            &&& after.session == st.session
            &&& effect != KeyEffect::Submit
            &&& effect != KeyEffect::Edit
            &&& effect == KeyEffect::Nothing ==> after == st
        }),
{
}

/// A tool is approved only by the key for yes, and only while it waits.
pub proof fn law_only_yes_approves(st: AppView, k: KeyPress)
    ensures
        on_key(st, k).1 == KeyEffect::Answer(true) ==> st.generating is AwaitingConfirm && (k.key
            == Key::Char('y') || k.key == Key::Char('Y')),
{
}

/// Nothing is sent while a reply is coming in, and what stands in the input field stays.
pub proof fn law_one_reply_at_a_time(st: AppView)
    requires
        !(st.generating is Idle),
    ensures
        on_submit(st) == (st, SubmissionView::Nothing),
{
}

/// The pieces of a reply end up in the history as one message, in order.
pub proof fn law_reply_is_kept(st: AppView, a: Seq<char>, b: Seq<char>)
    requires
        st.generating == (GeneratingView::Active { partial: Seq::empty() }),
    ensures
        on_done(on_delta(on_delta(st, a), b)).session.messages == st.session.messages.push(
            session::said(Role::Assistant, a + b),
        ),
        on_done(on_delta(on_delta(st, a), b)).generating is Idle,
{
    assert(Seq::<char>::empty() + a + b =~= a + b);
}

proof fn lemma_talk_push(ms: Seq<MessageView>, m: MessageView)
    requires
        m.role != Role::System,
    ensures
        session::conversation(ms.push(m)) == session::conversation(ms).push(m),
{
    reveal_with_fuel(Seq::filter, 2);
    assert(ms.push(m).drop_last() =~= ms);
}

/// A file that was added is in the next prompt, if it fits in the window together with what
/// follows it.
pub proof fn law_added_file_is_in_the_prompt(
    st: AppView,
    path: Seq<char>,
    contents: Seq<char>,
    message: Seq<char>,
    tools: Seq<char>,
)
    requires
        session::cost(st.skill + "\n"@ + tools) + session::cost(file_note(path, contents))
            + session::cost(file_added(path)) + session::cost(message)
            <= st.session.context_window,
    ensures
        on_send(on_file(st, path, Ok(contents)), message, tools).1.contains(
            session::said(Role::User, file_note(path, contents)),
        ),
{
    let ms = st.session.messages;
    let note = session::said(Role::User, file_note(path, contents));
    let answer = session::said(Role::Assistant, file_added(path));
    let next = session::said(Role::User, message);
    let prompt = st.skill + "\n"@ + tools;
    let window = st.session.context_window as nat;
    let all = ms.push(note).push(answer).push(next);
    let talk = session::conversation(all);
    let i = session::conversation(ms).len() as int;
    lemma_talk_push(ms, note);
    lemma_talk_push(ms.push(note), answer);
    lemma_talk_push(ms.push(note).push(answer), next);
    assert(talk == session::conversation(ms).push(note).push(answer).push(next));
    let tail = talk.skip(i);
    assert(tail =~= seq![note, answer, next]);
    assert(tail.drop_last() =~= seq![note, answer]);
    assert(tail.drop_last().drop_last() =~= seq![note]);
    assert(tail.drop_last().drop_last().drop_last() =~= Seq::<MessageView>::empty());
    reveal_with_fuel(session::total_cost, 4);
    session::law_question_that_fits_is_kept(talk, session::budget(window, prompt), i);
    let kept = session::newest_turns(talk, session::budget(window, prompt));
    let j = choose|j: int| 0 <= j < kept.len() && kept[j] == note;
    let out = on_send(on_file(st, path, Ok(contents)), message, tools).1;
    assert(out == session::assembled(all, window, prompt));
    assert(out[j + 1] == note);
}

/// A view that was scrolled up stays where it is when text comes in; any other follows it.
pub proof fn law_view_follows(st: AppView, delta: Seq<char>)
    ensures
        st.user_scrolled ==> on_delta(st, delta).offset == st.offset,
        !st.user_scrolled ==> on_delta(st, delta).offset == 0,
{
}

/// What was typed is sent, the whole of it but white space round it: as a command if it opens
/// with a slash, else as a message; and the field is empty afterwards and remembers the text.
pub proof fn law_what_was_typed_is_sent(st: AppView, t: Seq<char>)
    requires
        st.generating is Idle,
        st.input.lines == seq![t],
    ensures
        ({
            let (after, sent) = on_submit(st);
            &&& text::blank(t) ==> sent is Nothing && after.input.history == st.input.history
            &&& !text::blank(t) && text::trimmed(t)[0] == '/' ==> sent == SubmissionView::Command(
                text::trimmed(t),
            )
            &&& !text::blank(t) && text::trimmed(t)[0] != '/' ==> sent == SubmissionView::Message(
                text::trimmed(t),
            )
            &&& !text::blank(t) ==> after.input.history == st.input.history.push(t)
            &&& after.input.lines == seq![Seq::<char>::empty()]
            &&& after.session == st.session && after.model == st.model && after.running
                == st.running && after.generating == st.generating
        }),
{
    text::lemma_trimmed_blank(t);
    assert(input::input_text(st.input.lines) == t);
}

/// A message that is sent joins the conversation and is the last that the model gets where it
/// fits, behind the words of the skill and the list of the tools; the reply starts empty.
pub proof fn law_message_reaches_the_model(
    st: AppView,
    message: Seq<char>,
    tools: Seq<char>,
)
    requires
        session::cost(st.skill + "\n"@ + tools) + session::cost(message)
            <= st.session.context_window,
    ensures
        ({
            let (after, out) = on_send(st, message, tools);
            &&& out.last() == (MessageView { role: Role::User, content: message })
            &&& out[0] == (MessageView { role: Role::System, content: st.skill + "\n"@ + tools })
            &&& after.session.messages == st.session.messages.push(
                (MessageView { role: Role::User, content: message }),
            )
            &&& after.generating == (GeneratingView::Active { partial: Seq::empty() })
            &&& after.offset == 0 && after.model == st.model && after.input == st.input
                && after.running == st.running
        }),
{
    session::law_newest_question_is_kept(
        st.session.messages,
        message,
        st.session.context_window as nat,
        st.skill + "\n"@ + tools,
    );
}

/// Each command does what the help says of it, and nothing else.
pub proof fn law_commands(st: AppView, arg: Seq<char>)
    requires
        text_facts::tight(arg),
        arg.len() > 0,
    ensures
        on_command(st, "/model"@ + seq![' '] + arg).1 == (CommandEffectView::SwitchModel {
            name: arg,
        }),
        on_command(st, "/model"@ + seq![' '] + arg).0.session == st.session,
        on_command(st, "/add"@ + seq![' '] + arg) == (
            st,
            (CommandEffectView::ReadFile { path: arg }),
        ),
        !on_command(st, "/quit"@).0.running && !on_command(st, "/exit"@).0.running,
        on_command(st, "/clear"@).0.session.messages == session::system_only(st.session.messages),
        on_command(st, "/clear"@).0.running == st.running,
        on_command(st, "/help"@) == (told(st, HELP@), CommandEffectView::Nothing),
        on_command(st, "/model"@).1 is Nothing,
        on_command(st, "/model"@).0.model == st.model,
        text_facts::part_of(st.model, on_command(st, "/model"@).0.session.messages.last().content),
        on_command(st, "/add"@).1 is Nothing,
{
    reveal_strlit("/model");
    reveal_strlit("/add");
    reveal_strlit("/quit");
    reveal_strlit("/exit");
    reveal_strlit("/clear");
    reveal_strlit("/help");
    assert("/model"@[1] == 'm' && "/add"@[1] == 'a' && "/quit"@[1] == 'q' && "/exit"@[1] == 'e');
    assert("/clear"@[1] == 'c' && "/help"@[1] == 'h');
    lemma_command("/model"@, arg);
    lemma_command("/add"@, arg);
    text::lemma_first_char_none("/quit"@, ' ');
    text::lemma_first_char_none("/exit"@, ' ');
    text::lemma_first_char_none("/clear"@, ' ');
    text::lemma_first_char_none("/help"@, ' ');
    text::lemma_first_char_none("/model"@, ' ');
    text::lemma_first_char_none("/add"@, ' ');
    text_facts::lemma_part("Current model: `"@, st.model, "`\nUsage: /model <name>"@);
    assert(on_command(st, "/model"@).0.session.messages.last().content =~= "Current model: `"@
        + st.model + "`\nUsage: /model <name>"@);
}

proof fn lemma_command(name: Seq<char>, arg: Seq<char>)
    requires
        text_facts::tight(arg),
        forall|i: int| 0 <= i < name.len() ==> #[trigger] name[i] != ' ',
    ensures
        command_parts(name + seq![' '] + arg) == (name, Some(arg)),
{
    let s = name + seq![' '] + arg;
    let n = name.len() as int;
    assert(s[n] == ' ');
    assert forall|j: int| 0 <= j < n implies #[trigger] s[j] != ' ' by {
        assert(s[j] == name[j]);
    }
    text::lemma_first_char_is(s, ' ', n);
    assert(s.take(n) =~= name);
    assert(s.skip(n + 1) =~= arg);
    text_facts::lemma_tight(arg);
}

/// Every other command is answered with its own words and the way to the help, and does
/// nothing.
pub proof fn law_unknown_command(st: AppView, cmd: Seq<char>)
    requires
        ({
            let name = command_parts(cmd).0;
            name != "/model"@ && name != "/quit"@ && name != "/exit"@ && name != "/clear"@ && name
                != "/help"@ && name != "/add"@
        }),
    ensures
        on_command(st, cmd).1 is Nothing,
        on_command(st, cmd).0.running == st.running,
        on_command(st, cmd).0.session.messages == st.session.messages.push(
            (MessageView {
                role: Role::Assistant,
                content: "Unknown command: "@ + cmd + "\nType /help for available commands."@,
            }),
        ),
{
}

/// A model that was brought up is the one in use, with its own window, and the conversation
/// goes on; one that could not be brought up changes neither, and the user is told.
pub proof fn law_models_are_switched(st: AppView, name: Seq<char>, cw: usize, e: Seq<char>)
    ensures
        ({
            let up = on_switched(st, name, Ok(cw));
            let down = on_switched(st, name, Err(e));
            let n = st.session.messages.len() as int;
            &&& up.model == name && up.session.context_window == cw && !up.connecting
            &&& up.session.messages.take(n) == st.session.messages && up.session.messages.len()
                == n + 1
            &&& down.model == st.model && down.session.context_window
                == st.session.context_window && !down.connecting
            &&& down.session.messages == st.session.messages.push(
                (MessageView {
                    role: Role::Assistant,
                    content: "[error starting daemon] "@ + e,
                }),
            )
        }),
{
    let n = st.session.messages.len() as int;
    assert(on_switched(st, name, Ok(cw)).session.messages.take(n) =~= st.session.messages);
}

/// A file that was added stands in the conversation whole, with its path; one that could not be
/// read is told with the reason; and nothing that was said before is lost.
pub proof fn law_files_are_added(
    st: AppView,
    path: Seq<char>,
    contents: Seq<char>,
    e: Seq<char>,
)
    ensures
        on_file(st, path, Ok(contents)).session.messages == st.session.messages.push(
            (MessageView {
                role: Role::User,
                content: "File `"@ + path + "`:\n```\n"@ + contents + "\n```"@,
            }),
        ).push(
            (MessageView { role: Role::Assistant, content: "Added `"@ + path + "` to context."@ }),
        ),
        on_file(st, path, Err(e)).session.messages == st.session.messages.push(
            (MessageView { role: Role::Assistant, content: "[error reading "@ + path + "] "@ + e }),
        ),
{
}

/// What each key does: the view is moved by the page keys and, where the input field has one
/// line, by the arrows; control and C stops a reply or leaves; control and D leaves; escape
/// empties the field; enter sends, with shift it is typed like any other key.
pub proof fn law_keys(st: AppView, k: KeyPress)
    requires
        !(st.generating is AwaitingConfirm),
        !k.control,
    ensures
        k.key == Key::PageUp && st.offset <= 60000 ==> on_key(st, k).0.offset == st.offset + 10
            && on_key(st, k).0.user_scrolled,
        k.key == Key::PageDown && st.offset > 10 ==> on_key(st, k).0.offset == st.offset - 10,
        k.key == Key::PageDown && st.offset <= 10 ==> on_key(st, k).0.offset == 0 && !on_key(
            st,
            k,
        ).0.user_scrolled,
        k.key == Key::Up && st.input.lines.len() == 1 && text_facts::free_of(
            st.input.lines[0],
            '\n',
        ) && st.offset <= 60000 ==> on_key(st, k).0.offset == st.offset + 1,
        k.key == Key::Enter && !k.shift ==> on_key(st, k) == (st, KeyEffect::Submit),
        k.key == Key::Enter && k.shift ==> on_key(st, k) == (st, KeyEffect::Edit),
        k.key == Key::Esc ==> on_key(st, k).1 == KeyEffect::ClearInput && on_key(
            st,
            k,
        ).0.input.lines == seq![Seq::<char>::empty()],
        k.key is Char || k.key == Key::Other ==> on_key(st, k) == (st, KeyEffect::Edit),
        on_key(st, k).0.session == st.session && on_key(st, k).0.running == st.running && on_key(
            st,
            k,
        ).0.model == st.model && on_key(st, k).0.generating == st.generating,
{
    if st.input.lines.len() == 1 && text_facts::free_of(st.input.lines[0], '\n') {
        text::lemma_first_char_none(st.input.lines[0], '\n');
        assert(input::input_text(st.input.lines) == st.input.lines[0]);
    }
}

/// Control and C stops the reply that is coming in, or leaves where there is none; control and
/// D leaves.
pub proof fn law_control_keys(st: AppView, k: KeyPress)
    requires
        k.control,
        !(st.generating is AwaitingConfirm),
    ensures
        (k.key == Key::Char('c') || k.key == Key::Char('C')) && st.generating is Active ==> on_key(
            st,
            k,
        ) == ((AppView { generating: GeneratingView::Idle, ..st }), KeyEffect::Cancel),
        (k.key == Key::Char('c') || k.key == Key::Char('C')) && st.generating is Idle ==> on_key(
            st,
            k,
        ) == ((AppView { running: false, ..st }), KeyEffect::Nothing),
        k.key == Key::Char('d') || k.key == Key::Char('D') ==> !on_key(st, k).0.running && on_key(
            st,
            k,
        ).0.session == st.session,
{
}

/// The user's word on a waiting tool: Y approves, N and escape refuse, and control and C
/// refuses and stops.
pub proof fn law_answers(st: AppView, k: KeyPress)
    requires
        st.generating is AwaitingConfirm,
    ensures
        !k.control && (k.key == Key::Char('y') || k.key == Key::Char('Y')) ==> on_key(st, k).1
            == KeyEffect::Answer(true),
        k.key == Key::Char('n') || k.key == Key::Char('N') || k.key == Key::Esc ==> on_key(st, k).1
            == KeyEffect::Answer(false),
        k.control && (k.key == Key::Char('c') || k.key == Key::Char('C')) ==> on_key(st, k).1
            == KeyEffect::CancelAndDeny && on_key(st, k).0.generating is Idle,
{
}

/// A reply grows by what comes in, in order, and joins the conversation when it is complete; a
/// failure is told, and so that nothing comes in any more; a tool that asks is shown with its
/// arguments, and only while a reply comes in.
pub proof fn law_replies(
    st: AppView,
    partial: Seq<char>,
    delta: Seq<char>,
    tool: Seq<char>,
    args: Seq<char>,
    e: Seq<char>,
)
    requires
        st.generating == (GeneratingView::Active { partial }),
    ensures
        on_delta(st, delta).generating == (GeneratingView::Active { partial: partial + delta }),
        on_delta(st, delta).session == st.session,
        on_done(st).session.messages == st.session.messages.push(
            (MessageView { role: Role::Assistant, content: partial }),
        ),
        on_done(st).generating is Idle && !on_done(st).user_scrolled && on_done(st).offset == 0,
        on_error(st, e).session.messages == st.session.messages.push(
            (MessageView { role: Role::Assistant, content: "[error] "@ + e }),
        ),
        on_error(st, e).generating is Idle,
        on_confirm_request(st, tool, args).generating == (GeneratingView::AwaitingConfirm {
            tool_name: tool,
            args_summary: args,
        }),
        on_confirm_request(st, tool, args).session == st.session,
{
}

} // verus!
