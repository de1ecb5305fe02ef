//! The registry of tools: lookup by name, confirmation and dispatch.

use crate::json;
use crate::json::{Field, FieldView};
use crate::text;
use crate::text_facts;
use crate::tools::error::{ToolError, ToolErrorView};
use crate::tools::fs::{ReadFileTool, WriteFileTool};
use crate::tools::mcp::McpTool;
use crate::tools::shell;
use crate::tools::shell::RunCommandTool;
use crate::tools::web;
use crate::tools::web::WebSearchTool;
use vstd::prelude::*;

verus! {

/// A registered tool.
pub enum Tool {
    ReadFile(ReadFileTool),
    WriteFile(WriteFileTool),
    RunCommand(RunCommandTool),
    WebSearch(WebSearchTool),
    Mcp(McpTool),
}

/// The name by which a tool is called.
pub open spec fn tool_name(t: Tool) -> Seq<char> {
    match t {
        Tool::ReadFile(_) => "read_file"@,
        Tool::WriteFile(_) => "write_file"@,
        Tool::RunCommand(_) => "run_command"@,
        Tool::WebSearch(_) => "web_search"@,
        Tool::Mcp(m) => m.name@,
    }
}

/// How a tool is described to the model.
pub open spec fn tool_description(t: Tool) -> Seq<char> {
    match t {
        Tool::ReadFile(_) => "read_file(path: string) — read the contents of a file"@,
        Tool::WriteFile(_) =>
            "write_file(path: string, content: string) — write content to a file (creates or overwrites)"@,
        Tool::RunCommand(_) =>
            "run_command(cmd: string) — run a shell command and return its output"@,
        Tool::WebSearch(_) =>
            "web_search(query: string) — search the web; use for current events, news, or anything you are unsure about"@,
        Tool::Mcp(m) => m.description@,
    }
}

/// A tool that can change something.
pub open spec fn changes_things(t: Tool) -> bool {
    t is WriteFile || t is RunCommand
}

/// The arguments of a call: the members of the object that they are, if any.
pub open spec fn argument(args: Option<Seq<FieldView>>, key: Seq<char>) -> Option<Seq<char>> {
    match args {
        Some(fields) => json::string_at(fields, key),
        None => None,
    }
}

/// The user must confirm a call of `t` with `args`.
pub open spec fn confirmation(t: Tool, args: Option<Seq<FieldView>>) -> bool {
    match t {
        Tool::RunCommand(_) => match argument(args, "cmd"@) {
            Some(cmd) => !shell::safe_command(cmd),
            None => true,
        },
        _ => changes_things(t),
    }
}

/// What a tool call does.
pub enum Request {
    ReadFile { path: String },
    WriteFile { path: String, content: String },
    RunCommand { cmd: String },
    WebSearch { query: String, url: String },
    Mcp { name: String, args: String },
}

/// What a [`Request`] says.
pub enum RequestView {
    ReadFile { path: Seq<char> },
    WriteFile { path: Seq<char>, content: Seq<char> },
    RunCommand { cmd: Seq<char> },
    WebSearch { query: Seq<char>, url: Seq<char> },
    Mcp { name: Seq<char>, args: Seq<char> },
}

impl View for Request {
    type V = RequestView;

    open spec fn view(&self) -> RequestView {
        match self {
            Request::ReadFile { path } => RequestView::ReadFile { path: path@ },
            Request::WriteFile { path, content } => RequestView::WriteFile {
                path: path@,
                content: content@,
            },
            Request::RunCommand { cmd } => RequestView::RunCommand { cmd: cmd@ },
            Request::WebSearch { query, url } => RequestView::WebSearch {
                query: query@,
                url: url@,
            },
            Request::Mcp { name, args } => RequestView::Mcp { name: name@, args: args@ },
        }
    }
}

pub open spec fn request_outcome(r: Result<Request, ToolError>) -> Result<
    RequestView,
    ToolErrorView,
> {
    match r {
        Ok(q) => Ok(q@),
        Err(e) => Err(e@),
    }
}

/// What a call of `t` does, given the text of its arguments and what they are as an
/// object; an argument that is missing or no string is an error.
pub open spec fn request_of(t: Tool, text: Seq<char>, args: Option<Seq<FieldView>>) -> Result<
    RequestView,
    ToolErrorView,
> {
    match t {
        Tool::ReadFile(_) => match argument(args, "path"@) {
            Some(path) => Ok(RequestView::ReadFile { path }),
            None => Err(ToolErrorView::InvalidArgs("missing 'path'"@)),
        },
        Tool::WriteFile(_) => match (argument(args, "path"@), argument(args, "content"@)) {
            (Some(path), Some(content)) => Ok(RequestView::WriteFile { path, content }),
            (None, _) => Err(ToolErrorView::InvalidArgs("missing 'path'"@)),
            (Some(_), None) => Err(ToolErrorView::InvalidArgs("missing 'content'"@)),
        },
        Tool::RunCommand(_) => match argument(args, "cmd"@) {
            Some(cmd) => Ok(RequestView::RunCommand { cmd }),
            None => Err(ToolErrorView::InvalidArgs("missing 'cmd'"@)),
        },
        Tool::WebSearch(_) => match argument(args, "query"@) {
            Some(query) => Ok(RequestView::WebSearch { query, url: web::search_address(query) }),
            None => Err(ToolErrorView::InvalidArgs("missing 'query'"@)),
        },
        Tool::Mcp(m) => Ok(RequestView::Mcp { name: m.name@, args: text }),
    }
}

/// The first tool with the name `name`.
pub open spec fn lookup(tools: Seq<Tool>, name: Seq<char>) -> Option<Tool>
    decreases tools.len(),
{
    if tools.len() == 0 {
        None
    } else if tool_name(tools[0]) == name {
        Some(tools[0])
    } else {
        lookup(tools.drop_first(), name)
    }
}

/// The tool `name` exists and can change something.
pub open spec fn destructive(tools: Seq<Tool>, name: Seq<char>) -> bool {
    match lookup(tools, name) {
        Some(t) => changes_things(t),
        None => false,
    }
}

/// The tool `name` exists and the user must confirm this call of it.
pub open spec fn must_confirm(
    tools: Seq<Tool>,
    name: Seq<char>,
    args: Option<Seq<FieldView>>,
) -> bool {
    match lookup(tools, name) {
        Some(t) => confirmation(t, args),
        None => false,
    }
}

/// What a call of the tool `name` does.
pub open spec fn dispatched(
    tools: Seq<Tool>,
    name: Seq<char>,
    text: Seq<char>,
    args: Option<Seq<FieldView>>,
) -> Result<RequestView, ToolErrorView> {
    match lookup(tools, name) {
        Some(t) => request_of(t, text, args),
        None => Err(ToolErrorView::UnknownTool(name)),
    }
}

/// The lines that list the tools.
pub open spec fn tool_lines(tools: Seq<Tool>) -> Seq<char>
    decreases tools.len(),
{
    if tools.len() == 0 {
        Seq::empty()
    } else {
        let t = tools.last();
        tool_lines(tools.drop_last()) + "- "@ + tool_name(t) + ": "@ + tool_description(t) + "\n"@
    }
}

/// The system prompt: persona, how to answer, and the tools.
pub open spec fn prompt(today: Seq<char>, tools: Seq<Tool>) -> Seq<char> {
    "You are Axon, a concise local AI coding assistant. Today is "@ + today
        + ".\n\n## Tools\n/no_think\nAlways output exactly one JSON object — no surrounding text. Never say you don't know; use web_search instead.\nTo answer: {\"type\":\"text\",\"content\":\"your answer\"}\nTo use a tool: {\"type\":\"tool_call\",\"name\":\"tool\",\"args\":{...}}\n\nAvailable tools:\n"@
        + tool_lines(tools)
}

fn get_argument(args: &Option<Vec<Field>>, key: &str) -> (r: Option<String>)
    ensures
        text::option_view(r) == argument(json::object_view(*args), key@),
{
    match args {
        Some(fields) => json::get_string(fields, key),
        None => None,
    }
}

fn missing(message: &str) -> (r: Result<Request, ToolError>)
    ensures
        request_outcome(r) == Err::<RequestView, _>(ToolErrorView::InvalidArgs(message@)),
{
    Err(ToolError::InvalidArgs(message.to_string()))
}

impl Tool {
    pub fn name(&self) -> (r: &str)
        ensures
            r@ == tool_name(*self),
    {
        match self {
            Tool::ReadFile(_) => "read_file",
            Tool::WriteFile(_) => "write_file",
            Tool::RunCommand(_) => "run_command",
            Tool::WebSearch(_) => "web_search",
            Tool::Mcp(m) => m.name.as_str(),
        }
    }

    pub fn description(&self) -> (r: &str)
        ensures
            r@ == tool_description(*self),
    {
        match self {
            Tool::ReadFile(_) => "read_file(path: string) — read the contents of a file",
            Tool::WriteFile(_) =>
                "write_file(path: string, content: string) — write content to a file (creates or overwrites)",
            Tool::RunCommand(_) =>
                "run_command(cmd: string) — run a shell command and return its output",
            Tool::WebSearch(_) =>
                "web_search(query: string) — search the web; use for current events, news, or anything you are unsure about",
            Tool::Mcp(m) => m.description.as_str(),
        }
    }

    pub fn is_destructive(&self) -> (r: bool)
        ensures
            r == changes_things(*self),
    {
        match self {
            Tool::WriteFile(_) => true,
            Tool::RunCommand(_) => true,
            _ => false,
        }
    }

    /// Whether the user must confirm this call; for a shell command that depends on
    /// the command.
    pub fn needs_confirm(&self, args: &Option<Vec<Field>>) -> (r: bool)
        ensures
            r == confirmation(*self, json::object_view(*args)),
    {
        match self {
            Tool::RunCommand(_) => match get_argument(args, "cmd") {
                Some(cmd) => !shell::is_safe_command(cmd.as_str()),
                None => true,
            },
            _ => self.is_destructive(),
        }
    }

    /// What the call does, given the text of its arguments and what they are as an
    /// object.
    pub fn request(&self, text: &str, args: &Option<Vec<Field>>) -> (r: Result<Request, ToolError>)
        ensures
            request_outcome(r) == request_of(*self, text@, json::object_view(*args)),
    {
        match self {
            Tool::ReadFile(_) => match get_argument(args, "path") {
                Some(path) => Ok(Request::ReadFile { path }),
                None => missing("missing 'path'"),
            },
            Tool::WriteFile(_) => match get_argument(args, "path") {
                Some(path) => match get_argument(args, "content") {
                    Some(content) => Ok(Request::WriteFile { path, content }),
                    None => missing("missing 'content'"),
                },
                None => missing("missing 'path'"),
            },
            Tool::RunCommand(_) => match get_argument(args, "cmd") {
                Some(cmd) => Ok(Request::RunCommand { cmd }),
                None => missing("missing 'cmd'"),
            },
            Tool::WebSearch(_) => match get_argument(args, "query") {
                Some(query) => {
                    let url = web::search_url(query.as_str());
                    Ok(Request::WebSearch { query, url })
                },
                None => missing("missing 'query'"),
            },
            Tool::Mcp(m) => Ok(Request::Mcp { name: m.name.clone(), args: text.to_string() }),
        }
    }
}

/// The tools that a model can call, in order.
pub struct ToolRegistry {
    tools: Vec<Tool>,
}

impl View for ToolRegistry {
    type V = Seq<Tool>;

    closed spec fn view(&self) -> Seq<Tool> {
        self.tools@
    }
}

impl ToolRegistry {
    pub fn new() -> (r: Self)
        ensures
            r@ == Seq::<Tool>::empty(),
    {
        ToolRegistry { tools: Vec::new() }
    }

    pub fn with_defaults() -> (r: Self)
        ensures
            r@ == seq![
                Tool::ReadFile(ReadFileTool),
                Tool::WriteFile(WriteFileTool),
                Tool::RunCommand(RunCommandTool),
                Tool::WebSearch(WebSearchTool),
            ],
    {
        let r = ToolRegistry::new().register(Tool::ReadFile(ReadFileTool)).register(
            Tool::WriteFile(WriteFileTool),
        ).register(Tool::RunCommand(RunCommandTool)).register(Tool::WebSearch(WebSearchTool));
        assert(r@ =~= seq![
            Tool::ReadFile(ReadFileTool),
            Tool::WriteFile(WriteFileTool),
            Tool::RunCommand(RunCommandTool),
            Tool::WebSearch(WebSearchTool),
        ]);
        r
    }

    pub fn register(self, tool: Tool) -> (r: Self)
        ensures
            r@ == self@.push(tool),
    {
        let mut tools = self.tools;
        tools.push(tool);
        ToolRegistry { tools }
    }

    /// The first tool with the name `name`.
    pub fn find(&self, name: &str) -> (r: Option<&Tool>)
        ensures
            lookup(self@, name@) == match r {
                Some(t) => Some(*t),
                None => None,
            },
    {
        let mut i: usize = 0;
        assert(self@.skip(0) =~= self@);
        while i < self.tools.len()
            invariant
                i <= self.tools.len(),
                lookup(self@, name@) == lookup(self@.skip(i as int), name@),
            decreases self.tools.len() - i,
        {
            assert(self@.skip(i as int)[0] == self.tools[i as int]);
            assert(self@.skip(i as int).drop_first() =~= self@.skip(i + 1));
            if text::same(self.tools[i].name(), name) {
                return Some(&self.tools[i]);
            }
            i += 1;
        }
        None
    }

    pub fn is_destructive(&self, name: &str) -> (r: bool)
        ensures
            r == destructive(self@, name@),
    {
        match self.find(name) {
            Some(t) => t.is_destructive(),
            None => false,
        }
    }

    /// Whether the user must confirm this call, given the JSON text of its arguments.
    pub fn needs_confirm(&self, name: &str, args: &str) -> (r: bool)
        ensures
            r == must_confirm(self@, name@, json::json_object(args@)),
    {
        match self.find(name) {
            Some(t) => t.needs_confirm(&json::read_object(args)),
            None => false,
        }
    }

    /// What the call does, given the JSON text of its arguments.
    pub fn execute(&self, name: &str, args: &str) -> (r: Result<Request, ToolError>)
        ensures
            request_outcome(r) == dispatched(self@, name@, args@, json::json_object(args@)),
    {
        match self.find(name) {
            Some(t) => t.request(args, &json::read_object(args)),
            None => Err(ToolError::UnknownTool(name.to_string())),
        }
    }

    /// The complete system prompt for the day `today`: persona, instructions and the
    /// list of the tools.
    pub fn system_prompt_section(&self, today: &str) -> (r: String)
        ensures
            r@ == prompt(today@, self@),
    {
        let mut s = "You are Axon, a concise local AI coding assistant. Today is ".to_string();
        s.append(today);
        s.append(
            ".\n\n## Tools\n/no_think\nAlways output exactly one JSON object — no surrounding text. Never say you don't know; use web_search instead.\nTo answer: {\"type\":\"text\",\"content\":\"your answer\"}\nTo use a tool: {\"type\":\"tool_call\",\"name\":\"tool\",\"args\":{...}}\n\nAvailable tools:\n",
        );
        let ghost head = s@;
        let mut i: usize = 0;
        assert(self@.take(0) =~= Seq::<Tool>::empty());
        assert(head + Seq::<char>::empty() =~= head);
        while i < self.tools.len()
            invariant
                i <= self.tools.len(),
                s@ == head + tool_lines(self@.take(i as int)),
            decreases self.tools.len() - i,
        {
            assert(self@.take(i + 1).drop_last() =~= self@.take(i as int));
            let t = &self.tools[i];
            s.append("- ");
            s.append(t.name());
            s.append(": ");
            s.append(t.description());
            s.append("\n");
            i += 1;
            assert(s@ =~= head + tool_lines(self@.take(i as int)));
        }
        assert(self@.take(i as int) =~= self@);
        s
    }
}

/// A call that must be confirmed is one of a tool that can change something.
pub proof fn law_confirmation_is_for_changes(
    tools: Seq<Tool>,
    name: Seq<char>,
    args: Option<Seq<FieldView>>,
)
    ensures
        must_confirm(tools, name, args) ==> destructive(tools, name),
{
}

/// A name that no tool has is refused as unknown, whatever the arguments.
pub proof fn law_unknown_tool(
    tools: Seq<Tool>,
    name: Seq<char>,
    text: Seq<char>,
    args: Option<Seq<FieldView>>,
)
    requires
        forall|i: int| 0 <= i < tools.len() ==> tool_name(#[trigger] tools[i]) != name,
    ensures
        dispatched(tools, name, text, args) == Err::<RequestView, _>(
            ToolErrorView::UnknownTool(name),
        ),
        !must_confirm(tools, name, args),
    decreases tools.len(),
{
    if tools.len() > 0 {
        assert(tool_name(tools[0]) != name);
        let rest = tools.drop_first();
        assert forall|i: int| 0 <= i < rest.len() implies tool_name(#[trigger] rest[i]) != name by {
            assert(rest[i] == tools[i + 1]);
        }
        law_unknown_tool(rest, name, text, args);
    }
}

/// A tool is called by its name, the first of several that have it.
pub proof fn law_tool_is_found(tools: Seq<Tool>, i: int)
    requires
        0 <= i < tools.len(),
        forall|j: int| 0 <= j < i ==> tool_name(#[trigger] tools[j]) != tool_name(tools[i]),
    ensures
        lookup(tools, tool_name(tools[i])) == Some(tools[i]),
    decreases tools.len(),
{
    if i > 0 {
        assert(tool_name(tools[0]) != tool_name(tools[i]));
        let rest = tools.drop_first();
        assert(rest[i - 1] == tools[i]);
        assert forall|j: int| 0 <= j < i - 1 implies tool_name(#[trigger] rest[j]) != tool_name(
            rest[i - 1],
        ) by {
            assert(rest[j] == tools[j + 1]);
        }
        law_tool_is_found(rest, i - 1);
    }
}

/// A call does what its arguments say, word for word: the file of its path is read, its content
/// is written to its path, its command is run, its query is searched for; and a tool of a
/// server gets the text of the arguments as it is.
pub proof fn law_calls_are_carried_out(
    t: Tool,
    text: Seq<char>,
    args: Seq<FieldView>,
    a: Seq<char>,
    b: Seq<char>,
)
    ensures
        t is ReadFile && json::string_at(args, "path"@) == Some(a) ==> request_of(
            t,
            text,
            Some(args),
        ) == Ok::<_, ToolErrorView>(RequestView::ReadFile { path: a }),
        t is WriteFile && json::string_at(args, "path"@) == Some(a) && json::string_at(
            args,
            "content"@,
        ) == Some(b) ==> request_of(t, text, Some(args)) == Ok::<_, ToolErrorView>(
            RequestView::WriteFile { path: a, content: b },
        ),
        t is RunCommand && json::string_at(args, "cmd"@) == Some(a) ==> request_of(
            t,
            text,
            Some(args),
        ) == Ok::<_, ToolErrorView>(RequestView::RunCommand { cmd: a }),
        t is WebSearch && json::string_at(args, "query"@) == Some(a) ==> (request_of(
            t,
            text,
            Some(args),
        ) matches Ok(RequestView::WebSearch { query, url }) && query == a && url
            == web::search_address(a)),
        t matches Tool::Mcp(m) ==> request_of(t, text, Some(args)) == Ok::<_, ToolErrorView>(
            RequestView::Mcp { name: m.name@, args: text },
        ),
{
}

/// A call without an argument that its tool needs is refused and names the argument.
pub proof fn law_missing_arguments(t: Tool, text: Seq<char>, args: Seq<FieldView>)
    ensures
        (t is ReadFile || t is WriteFile) && json::string_at(args, "path"@) is None ==> request_of(
            t,
            text,
            Some(args),
        ) == Err::<RequestView, _>(ToolErrorView::InvalidArgs("missing 'path'"@)),
        t is WriteFile && json::string_at(args, "path"@) is Some && json::string_at(
            args,
            "content"@,
        ) is None ==> request_of(t, text, Some(args)) == Err::<RequestView, _>(
            ToolErrorView::InvalidArgs("missing 'content'"@),
        ),
        t is RunCommand && json::string_at(args, "cmd"@) is None ==> request_of(t, text, Some(args))
            == Err::<RequestView, _>(ToolErrorView::InvalidArgs("missing 'cmd'"@)),
        t is WebSearch && json::string_at(args, "query"@) is None ==> request_of(
            t,
            text,
            Some(args),
        ) == Err::<RequestView, _>(ToolErrorView::InvalidArgs("missing 'query'"@)),
        !(t is Mcp) ==> request_of(t, text, None) is Err,
{
}

/// Writing a file and running a command can change something, and no other tool of the
/// assistant's own; a call is carried out by the tool that its name finds, and must be
/// confirmed exactly if that tool writes a file or runs a command that does not only read.
pub proof fn law_what_must_be_confirmed(
    tools: Seq<Tool>,
    name: Seq<char>,
    text: Seq<char>,
    args: Option<Seq<FieldView>>,
)
    ensures
        lookup(tools, name) matches Some(t) ==> {
            &&& destructive(tools, name) <==> t is WriteFile || t is RunCommand
            &&& dispatched(tools, name, text, args) == request_of(t, text, args)
            &&& must_confirm(tools, name, args) <==> t is WriteFile || t is RunCommand && !(
            argument(args, "cmd"@) is Some && shell::safe_command(argument(args, "cmd"@)->0))
        },
        lookup(tools, name) is None ==> !destructive(tools, name),
        lookup(tools, name) matches Some(t) ==> tool_name(t) == name,
    decreases tools.len(),
{
    if tools.len() > 0 && tool_name(tools[0]) != name {
        law_what_must_be_confirmed(tools.drop_first(), name, text, args);
    }
}

/// The model is told of the day and of every tool, with its name and what it does.
pub proof fn law_every_tool_is_listed(today: Seq<char>, tools: Seq<Tool>, i: int)
    requires
        0 <= i < tools.len(),
    ensures
        text_facts::part_of(
            "- "@ + tool_name(tools[i]) + ": "@ + tool_description(tools[i]) + "\n"@,
            tool_lines(tools),
        ),
        text_facts::part_of(tool_lines(tools), prompt(today, tools)),
        text_facts::part_of("Today is "@ + today, prompt(today, tools)),
    decreases tools.len(),
{
    let line = "- "@ + tool_name(tools[i]) + ": "@ + tool_description(tools[i]) + "\n"@;
    let before = tool_lines(tools.drop_last());
    if i == tools.len() - 1 {
        assert(tools.last() == tools[i]);
        text_facts::lemma_part_end(before, line);
        assert(tool_lines(tools) =~= before + line);
    } else {
        assert(tools.drop_last()[i] == tools[i]);
        law_every_tool_is_listed(today, tools.drop_last(), i);
        let t = tools.last();
        let more = "- "@ + tool_name(t) + ": "@ + tool_description(t) + "\n"@;
        text_facts::lemma_part_grows(line, before, more);
        assert(tool_lines(tools) =~= before + more);
    }
    lemma_prompt(today, tools);
}

proof fn lemma_prompt(today: Seq<char>, tools: Seq<Tool>)
    ensures
        text_facts::part_of(tool_lines(tools), prompt(today, tools)),
        text_facts::part_of("Today is "@ + today, prompt(today, tools)),
{
    let persona = "You are Axon, a concise local AI coding assistant. Today is "@;
    let rules = ".\n\n## Tools\n/no_think\nAlways output exactly one JSON object — no surrounding text. Never say you don't know; use web_search instead.\nTo answer: {\"type\":\"text\",\"content\":\"your answer\"}\nTo use a tool: {\"type\":\"tool_call\",\"name\":\"tool\",\"args\":{...}}\n\nAvailable tools:\n"@;
    let lines = tool_lines(tools);
    assert(prompt(today, tools) == persona + today + rules + lines);
    text_facts::lemma_part_end(persona + today + rules, lines);
    reveal_strlit("You are Axon, a concise local AI coding assistant. Today is ");
    reveal_strlit("Today is ");
    let n = persona.len() - "Today is "@.len();
    assert(persona.skip(n) =~= "Today is "@);
    let head = persona.take(n);
    let day = "Today is "@ + today;
    assert(persona + today =~= head + day);
    text_facts::lemma_part_end(head, day);
    text_facts::lemma_part_grows(day, persona + today, rules);
    text_facts::lemma_part_grows(day, persona + today + rules, lines);
}

} // verus!
