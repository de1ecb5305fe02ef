//! Model backends: the events that they stream and how their replies are read.

use crate::json;
use crate::json::{Field, FieldView, JsonView, LeafView};
use crate::session::Role;
use crate::text;
use vstd::prelude::*;

pub mod local;

verus! {

/// A piece of a model's reply.
#[derive(Debug)]
pub struct StreamEvent {
    pub delta: String,
    pub done: bool,
}

/// What a [`StreamEvent`] says.
#[verifier::ext_equal]
pub struct StreamEventView {
    pub delta: Seq<char>,
    pub done: bool,
}

impl View for StreamEvent {
    type V = StreamEventView;

    open spec fn view(&self) -> StreamEventView {
        StreamEventView { delta: self.delta@, done: self.done }
    }
}

pub open spec fn event_views(v: Seq<StreamEvent>) -> Seq<StreamEventView> {
    v.map_values(|e: StreamEvent| e@)
}

/// The event that ends a reply.
pub open spec fn end_event() -> StreamEventView {
    StreamEventView { delta: Seq::empty(), done: true }
}

impl StreamEvent {
    /// The event that ends a reply.
    pub fn end() -> (r: StreamEvent)
        ensures
            r@ == end_event(),
    {
        StreamEvent { delta: String::new(), done: true }
    }
}

/// Options of one request to a model.
#[derive(Debug)]
pub struct InferOptions {
    /// A grammar in GBNF that the output must follow.
    pub grammar: Option<String>,
}

impl Default for InferOptions {
    fn default() -> (r: Self)
        ensures
            r.grammar is None,
    {
        InferOptions { grammar: None }
    }
}

/// Why a backend fails.
#[derive(Debug)]
pub enum BackendError {
    ModelNotCached,
    Unavailable(String),
    Inference(String),
}

/// What a [`BackendError`] says.
pub enum BackendErrorView {
    ModelNotCached,
    Unavailable(Seq<char>),
    Inference(Seq<char>),
}

impl View for BackendError {
    type V = BackendErrorView;

    open spec fn view(&self) -> BackendErrorView {
        match self {
            BackendError::ModelNotCached => BackendErrorView::ModelNotCached,
            BackendError::Unavailable(m) => BackendErrorView::Unavailable(m@),
            BackendError::Inference(m) => BackendErrorView::Inference(m@),
        }
    }
}

/// The message of an error.
pub open spec fn backend_error_text(e: BackendErrorView) -> Seq<char> {
    match e {
        BackendErrorView::ModelNotCached => "model not cached and --no-download is set"@,
        BackendErrorView::Unavailable(m) => "backend unavailable: "@ + m,
        BackendErrorView::Inference(m) => "inference error: "@ + m,
    }
}

impl BackendError {
    /// The message of the error.
    pub fn message(&self) -> (r: String)
        ensures
            r@ == backend_error_text(self@),
    {
        match self {
            BackendError::ModelNotCached => "model not cached and --no-download is set".to_string(),
            BackendError::Unavailable(m) => text::cat("backend unavailable: ", m.as_str()),
            BackendError::Inference(m) => text::cat("inference error: ", m.as_str()),
        }
    }
}

/// The name of a role in a chat request.
pub open spec fn role_text(role: Role) -> Seq<char> {
    match role {
        Role::System => "system"@,
        Role::User => "user"@,
        Role::Assistant => "assistant"@,
    }
}

/// The name of a role in a chat request.
pub fn role_name(role: Role) -> (r: &'static str)
    ensures
        r@ == role_text(role),
{
    match role {
        Role::System => "system",
        Role::User => "user",
        Role::Assistant => "assistant",
    }
}

/// What is left of a reply that arrives in chunks, and the events read so far.
#[verifier::ext_equal]
pub struct ChatStreamView {
    pub rest: Seq<char>,
    pub done: bool,
}

/// The event that a line of a chat reply stands for, given whether the line
/// is JSON, what it is as an object and what its `message` is as an object. A line that is no
/// JSON stands for none.
pub open spec fn chat_event(
    is_json: bool,
    fields: Option<Seq<FieldView>>,
    message: Option<Seq<FieldView>>,
) -> Option<StreamEventView> {
    if !is_json {
        None
    } else {
        Some(
            StreamEventView {
                delta: match message {
                    Some(m) => json::string_or_empty(m, "content"@),
                    None => Seq::empty(),
                },
                done: match fields {
                    Some(f) => json::bool_at(f, "done"@) == Some(true),
                    None => false,
                },
            },
        )
    }
}

/// What the `message` of an object is as an object.
pub open spec fn message_object(fields: Option<Seq<FieldView>>) -> Option<Seq<FieldView>> {
    match fields {
        Some(f) => json::json_object(json::text_at(f, "message"@)),
        None => None,
    }
}

/// The event that a line of a chat reply stands for; a blank line stands for none.
pub open spec fn line_event(line: Seq<char>) -> Option<StreamEventView> {
    let t = text::trimmed(line);
    if t.len() == 0 {
        None
    } else {
        let fields = json::json_object(t);
        chat_event(json::json_fault(t) is None, fields, message_object(fields))
    }
}

/// The events of the complete lines of `buf` up to the first that ends the reply,
/// and what stands behind the last line read.
pub open spec fn chat_events(buf: Seq<char>) -> (Seq<StreamEventView>, ChatStreamView)
    decreases buf.len(),
{
    match text::split_pair(buf, '\n') {
        None => (Seq::empty(), ChatStreamView { rest: buf, done: false }),
        Some((line, rest)) => if rest.len() < buf.len() {
            match line_event(line) {
                Some(e) => if e.done {
                    (seq![e], ChatStreamView { rest, done: true })
                } else {
                    let (more, end) = chat_events(rest);
                    (seq![e] + more, end)
                },
                None => chat_events(rest),
            }
        } else {
            (Seq::empty(), ChatStreamView { rest: buf, done: false })
        },
    }
}

pub open spec fn event_view(e: Option<StreamEvent>) -> Option<StreamEventView> {
    match e {
        Some(e) => Some(e@),
        None => None,
    }
}

/// Reads the event of a line from what was parsed of it.
pub fn read_chat_event(
    is_json: bool,
    fields: &Option<Vec<Field>>,
    message: &Option<Vec<Field>>,
) -> (r: Option<StreamEvent>)
    ensures
        event_view(r) == chat_event(
            is_json,
            json::object_view(*fields),
            json::object_view(*message),
        ),
{
    if !is_json {
        return None;
    }
    let delta = match message {
        Some(m) => json::get_string_or_empty(m, "content"),
        None => String::new(),
    };
    let done = match fields {
        Some(f) => match json::get_bool(f, "done") {
            Some(b) => b,
            None => false,
        },
        None => false,
    };
    Some(StreamEvent { delta, done })
}

/// A chat reply that arrives in chunks, one JSON object to a line.
pub struct ChatStream {
    rest: String,
    done: bool,
}

impl View for ChatStream {
    type V = ChatStreamView;

    closed spec fn view(&self) -> ChatStreamView {
        ChatStreamView { rest: self.rest@, done: self.done }
    }
}

impl ChatStream {
    pub fn new() -> (r: ChatStream)
        ensures
            r@ == (ChatStreamView { rest: Seq::empty(), done: false }),
    {
        ChatStream { rest: String::new(), done: false }
    }

    /// Whether the reply has ended.
    pub fn is_done(&self) -> (r: bool)
        ensures
            r == self@.done,
    {
        self.done
    }

    fn event_of(line: &str) -> (r: Option<StreamEvent>)
        ensures
            event_view(r) == line_event(line@),
    {
        let t = text::trim(line);
        if t.is_empty() {
            return None;
        }
        let is_json = json::find_fault(t).is_none();
        let fields = json::read_object(t);
        let message = match &fields {
            Some(f) => json::read_object(json::get_text(f, "message").as_str()),
            None => None,
        };
        read_chat_event(is_json, &fields, &message)
    }

    /// Takes in a chunk and returns the events of the lines that it completes.
    pub fn feed(&mut self, chunk: &str) -> (r: Vec<StreamEvent>)
        ensures
            (event_views(r@), final(self)@) == chat_events(old(self)@.rest + chunk@),
    {
        self.rest.append(chunk);
        let ghost all = self.rest@;
        self.done = false;
        let mut out: Vec<StreamEvent> = Vec::new();
        assert(event_views(out@) + chat_events(all).0 =~= chat_events(all).0);
        loop
            invariant
                !self.done,
                event_views(out@) + chat_events(self.rest@).0 == chat_events(all).0,
                chat_events(self.rest@).1 == chat_events(all).1,
                all == old(self)@.rest + chunk@,
            decreases self.rest@.len(),
        {
            let ghost before = event_views(out@);
            assert(before + Seq::<StreamEventView>::empty() =~= before);
            let (line, rest) = match text::split_once(self.rest.as_str(), '\n') {
                Some((line, rest)) => (line.to_string(), rest.to_string()),
                None => {
                    return out;
                },
            };
            proof {
                text::lemma_first_char(self.rest@, '\n');
            }
            self.rest = rest;
            if let Some(e) = ChatStream::event_of(line.as_str()) {
                let done = e.done;
                let ghost v = e@;
                out.push(e);
                assert(event_views(out@) =~= before.push(v));
                if done {
                    assert(before + seq![v] =~= before.push(v));
                    self.done = true;
                    return out;
                }
                proof {
                    let more = chat_events(rest@).0;
                    assert(before + (seq![v] + more) =~= event_views(out@) + more);
                }
            }
        }
    }
}

/// The address at which a server lists its models.
pub fn tags_url(base_url: &str) -> (r: String)
    ensures
        r@ == base_url@ + "/api/tags"@,
{
    text::cat(base_url, "/api/tags")
}

/// The name of a listed model.
pub open spec fn model_in(item: LeafView) -> Option<Seq<char>> {
    match json::json_object(item.text) {
        Some(f) => json::string_at(f, "name"@),
        None => None,
    }
}

/// The names of the listed models that have one, in order.
pub open spec fn models_of(items: Seq<LeafView>) -> Seq<Seq<char>>
    decreases items.len(),
{
    if items.len() == 0 {
        Seq::empty()
    } else {
        match model_in(items.last()) {
            Some(n) => models_of(items.drop_last()).push(n),
            None => models_of(items.drop_last()),
        }
    }
}

/// The models that a server lists, given what its answer is as a JSON object; none where it
/// lists nothing.
pub open spec fn listed_models(fields: Option<Seq<FieldView>>) -> Seq<Seq<char>> {
    match fields {
        Some(f) => match json::json_array(json::text_at(f, "models"@)) {
            Some(items) => models_of(items),
            None => Seq::empty(),
        },
        None => Seq::empty(),
    }
}

/// Reads the models that a server lists.
pub fn list_models(answer: &str) -> (r: Vec<String>)
    ensures
        text::views(r@) == listed_models(json::json_object(answer@)),
{
    let mut out: Vec<String> = Vec::new();
    assert(text::views(out@) =~= Seq::<Seq<char>>::empty());
    let items = match json::read_object(answer) {
        Some(f) => json::read_array(json::get_text(&f, "models").as_str()),
        None => None,
    };
    let items = match items {
        Some(v) => v,
        None => {
            return out;
        },
    };
    let ghost all = json::leaf_views(items@);
    let mut i: usize = 0;
    assert(all.take(0) =~= Seq::<LeafView>::empty());
    while i < items.len()
        invariant
            i <= items.len(),
            all == json::leaf_views(items@),
            text::views(out@) == models_of(all.take(i as int)),
        decreases items.len() - i,
    {
        let ghost before = text::views(out@);
        assert(all.take(i + 1).drop_last() =~= all.take(i as int));
        assert(all.take(i + 1).last() == items[i as int]@);
        let name = match json::read_object(items[i].text.as_str()) {
            Some(f) => json::get_string(&f, "name"),
            None => None,
        };
        if let Some(n) = name {
            let ghost v = n@;
            out.push(n);
            assert(text::views(out@) =~= before.push(v));
        }
        i += 1;
    }
    assert(all.take(i as int) =~= all);
    out
}

/// The address of the chat endpoint of a server.
pub fn chat_url(base_url: &str) -> (r: String)
    ensures
        r@ == base_url@ + "/api/chat"@,
{
    text::cat(base_url, "/api/chat")
}

/// A backend that talks to an Ollama server.
pub struct OllamaBackend {
    pub base_url: String,
    pub model: String,
}

impl OllamaBackend {
    pub fn new(base_url: String, model: String) -> (r: OllamaBackend)
        ensures
            r == (OllamaBackend { base_url, model }),
    {
        OllamaBackend { base_url, model }
    }

    pub fn model_name(&self) -> (r: &str)
        ensures
            r@ == self.model@,
    {
        self.model.as_str()
    }

    pub fn context_window(&self) -> (r: usize)
        ensures
            r == 4096,
    {
        4096
    }
}

/// A backend that talks to the model daemon on a local port.
pub struct DaemonBackend {
    port: u16,
    name: String,
    cw: usize,
}

/// What a [`DaemonBackend`] holds.
#[verifier::ext_equal]
pub struct DaemonBackendView {
    pub port: u16,
    pub name: Seq<char>,
    pub cw: usize,
}

impl View for DaemonBackend {
    type V = DaemonBackendView;

    closed spec fn view(&self) -> DaemonBackendView {
        DaemonBackendView { port: self.port, name: self.name@, cw: self.cw }
    }
}

impl DaemonBackend {
    pub fn new(port: u16, model_name: &str, cw: usize) -> (r: Self)
        ensures
            r@ == (DaemonBackendView { port, name: model_name@, cw }),
    {
        DaemonBackend { port, name: model_name.to_string(), cw }
    }

    pub fn port(&self) -> (r: u16)
        ensures
            r == self@.port,
    {
        self.port
    }

    pub fn model_name(&self) -> (r: &str)
        ensures
            r@ == self@.name,
    {
        self.name.as_str()
    }

    pub fn context_window(&self) -> (r: usize)
        ensures
            r == self@.cw,
    {
        self.cw
    }
}

/// How a reply is cut into chunks makes no difference to its events, up to the one
/// that ends it.
pub proof fn law_chunks_do_not_matter(a: Seq<char>, b: Seq<char>)
    ensures
        ({
            let (first, mid) = chat_events(a);
            let (second, end) = chat_events(mid.rest + b);
            if mid.done {
                chat_events(a + b) == (first, ChatStreamView { rest: mid.rest + b, done: true })
            } else {
                chat_events(a + b) == (first + second, end)
            }
        }),
    decreases a.len(),
{
    text::lemma_first_char(a, '\n');
    let (first, mid) = chat_events(a);
    match text::first_char(a, '\n') {
        None => {
            let (second, end) = chat_events(a + b);
            assert(Seq::<StreamEventView>::empty() + second =~= second);
        },
        Some(i) => {
            assert forall|j: int| 0 <= j < i implies (a + b)[j] != '\n' by {
                assert((a + b)[j] == a[j]);
            }
            assert((a + b)[i] == '\n');
            text::lemma_first_char_is(a + b, '\n', i);
            let line = a.take(i);
            let rest = a.skip(i + 1);
            assert((a + b).take(i) =~= line);
            assert((a + b).skip(i + 1) =~= rest + b);
            law_chunks_do_not_matter(rest, b);
            let (more, _) = chat_events(rest);
            let (second, _) = chat_events(mid.rest + b);
            if let Some(e) = line_event(line) {
                assert(seq![e] + (more + second) =~= (seq![e] + more) + second);
            }
        },
    }
}

/// The event of a line carries exactly the text that the line's message has under `content`,
/// white space at its ends included, and ends the reply exactly if the line says `done`.
pub proof fn law_delta_is_the_content(
    line: Seq<char>,
    members: Seq<(Seq<char>, Seq<char>)>,
    i: int,
    inner: Seq<(Seq<char>, Seq<char>)>,
    j: int,
    s: Seq<char>,
)
    requires
        text::trimmed(line).len() > 0,
        json::json_of(text::trimmed(line)) == Ok::<_, Seq<char>>(JsonView::Object(members)),
        0 <= i < members.len() && members[i].0 == "message"@,
        forall|k: int| 0 <= k < i ==> (#[trigger] members[k]).0 != "message"@,
        json::json_of(members[i].1) == Ok::<_, Seq<char>>(JsonView::Object(inner)),
        0 <= j < inner.len() && inner[j].0 == "content"@,
        forall|k: int| 0 <= k < j ==> (#[trigger] inner[k]).0 != "content"@,
        json::json_of(inner[j].1) == Ok::<_, Seq<char>>(JsonView::Text(s)),
    ensures
        line_event(line) matches Some(e) && e.delta == s && e.done == (json::bool_at(
            json::json_object(text::trimmed(line))->0,
            "done"@,
        ) == Some(true)),
{
    json::law_member_is_found(text::trimmed(line), members, i, "message"@);
    json::law_member_is_found(members[i].1, inner, j, "content"@);
}

/// What is read of a line whose message is an object with a text under `content` is that
/// text, character for character.
pub proof fn law_content_is_read_exactly(
    fields: Option<Seq<FieldView>>,
    message: Seq<FieldView>,
    s: Seq<char>,
)
    requires
        json::string_at(message, "content"@) == Some(s),
    ensures
        chat_event(true, fields, Some(message)) matches Some(e) && e.delta == s,
        chat_event(false, fields, Some(message)) is None,
        chat_event(true, fields, None) matches Some(e) && e.delta.len() == 0,
{
}

/// A reply ends at the first line that says so and not before.
pub proof fn law_done_ends_the_reply(
    line: Seq<char>,
    members: Seq<(Seq<char>, Seq<char>)>,
    i: int,
    b: bool,
)
    requires
        text::trimmed(line).len() > 0,
        json::json_of(text::trimmed(line)) == Ok::<_, Seq<char>>(JsonView::Object(members)),
        0 <= i < members.len() && members[i].0 == "done"@,
        forall|k: int| 0 <= k < i ==> (#[trigger] members[k]).0 != "done"@,
        json::json_of(members[i].1) == Ok::<_, Seq<char>>(JsonView::Boolean(b)),
    ensures
        line_event(line) matches Some(e) && e.done == b,
{
    json::law_member_is_found(text::trimmed(line), members, i, "done"@);
}

/// The lines of a reply become events one by one and in order: a complete line gives its event
/// before those of the lines behind it, a line that ends the reply is the last, a blank line
/// and one that is no JSON give none, and a line that is not complete waits.
pub proof fn law_lines_become_events(line: Seq<char>, rest: Seq<char>)
    requires
        forall|i: int| 0 <= i < line.len() ==> #[trigger] line[i] != '\n',
    ensures
        chat_events(line + seq!['\n'] + rest) == match line_event(line) {
            None => chat_events(rest),
            Some(e) => if e.done {
                (seq![e], (ChatStreamView { rest, done: true }))
            } else {
                (seq![e] + chat_events(rest).0, chat_events(rest).1)
            },
        },
        chat_events(line) == (
            Seq::<StreamEventView>::empty(),
            (ChatStreamView { rest: line, done: false }),
        ),
        text::blank(line) || json::json_of(text::trimmed(line)) is Err ==> line_event(line) is None,
        !text::blank(line) && json::json_of(text::trimmed(line)) is Ok ==> line_event(line) is Some,
{
    let buf = line + seq!['\n'] + rest;
    let n = line.len() as int;
    assert(buf[n] == '\n');
    assert forall|j: int| 0 <= j < n implies #[trigger] buf[j] != '\n' by {
        assert(line[j] != '\n');
    }
    text::lemma_first_char_is(buf, '\n', n);
    assert(buf.take(n) =~= line);
    assert(buf.skip(n + 1) =~= rest);
    text::lemma_first_char_none(line, '\n');
    text::lemma_trimmed_blank(line);
}

/// Every listed model that has a name is found, in order, and nothing else is.
pub proof fn law_models_are_listed(items: Seq<LeafView>)
    ensures
        forall|i: int|
            #![trigger items[i]]
            0 <= i < items.len() && model_in(items[i]) is Some ==> models_of(items).contains(
                model_in(items[i])->0,
            ),
        forall|k: int|
            0 <= k < models_of(items).len() ==> exists|i: int|
                #![trigger items[i]]
                0 <= i < items.len() && model_in(items[i]) == Some(#[trigger] models_of(items)[k]),
        models_of(items).len() <= items.len(),
    decreases items.len(),
{
    if items.len() > 0 {
        let rest = items.drop_last();
        law_models_are_listed(rest);
        let before = models_of(rest);
        let all = models_of(items);
        assert(items[items.len() - 1] == items.last());
        assert forall|i: int|
            #![trigger items[i]]
            0 <= i < items.len() && model_in(items[i]) is Some implies all.contains(
            model_in(items[i])->0,
        ) by {
            if i < rest.len() {
                assert(rest[i] == items[i]);
                let k = choose|k: int| 0 <= k < before.len() && before[k] == model_in(items[i])->0;
                assert(all[k] == before[k]);
            } else {
                assert(all[before.len() as int] == model_in(items[i])->0);
            }
        }
        assert forall|k: int| 0 <= k < all.len() implies exists|i: int|
            #![trigger items[i]]
            0 <= i < items.len() && model_in(items[i]) == Some(#[trigger] all[k]) by {
            if k < before.len() {
                assert(all[k] == before[k]);
                let i = choose|i: int|
                    #![trigger rest[i]]
                    0 <= i < rest.len() && model_in(rest[i]) == Some(before[k]);
                assert(items[i] == rest[i]);
            }
        }
    }
}

/// Errors say what went wrong, whole, and are told apart; roles are too.
pub proof fn law_errors_and_roles(m: Seq<char>, a: Role, b: Role)
    ensures
        text::finishes_with(backend_error_text(BackendErrorView::Unavailable(m)), m),
        text::finishes_with(backend_error_text(BackendErrorView::Inference(m)), m),
        backend_error_text(BackendErrorView::Unavailable(m)) != backend_error_text(
            BackendErrorView::Inference(m),
        ),
        a != b ==> role_text(a) != role_text(b),
        role_text(Role::User) == "user"@ && role_text(Role::System) == "system"@ && role_text(
            Role::Assistant,
        ) == "assistant"@,
        end_event().done && end_event().delta.len() == 0,
{
    reveal_strlit("backend unavailable: ");
    reveal_strlit("inference error: ");
    reveal_strlit("user");
    reveal_strlit("system");
    reveal_strlit("assistant");
    assert("user"@.len() == 4 && "system"@.len() == 6 && "assistant"@.len() == 9);
    let u = backend_error_text(BackendErrorView::Unavailable(m));
    let i = backend_error_text(BackendErrorView::Inference(m));
    assert(u.subrange(u.len() - m.len(), u.len() as int) =~= m);
    assert(i.subrange(i.len() - m.len(), i.len() as int) =~= m);
    assert(u[0] == 'b' && i[0] == 'i');
}

/// The models of an answer are those of its list.
pub proof fn law_models_of_an_answer(
    answer: Seq<char>,
    members: Seq<(Seq<char>, Seq<char>)>,
    i: int,
    items: Seq<Seq<char>>,
)
    requires
        json::json_of(answer) == Ok::<_, Seq<char>>(JsonView::Object(members)),
        0 <= i < members.len() && members[i].0 == "models"@,
        forall|j: int| 0 <= j < i ==> (#[trigger] members[j]).0 != "models"@,
        json::json_of(members[i].1) == Ok::<_, Seq<char>>(JsonView::Array(items)),
    ensures
        ({
            let leaves = json::json_array(members[i].1)->0;
            &&& leaves.len() == items.len()
            &&& forall|k: int| 0 <= k < items.len() ==> (#[trigger] leaves[k]).text == items[k]
            &&& listed_models(json::json_object(answer)) == models_of(leaves)
        }),
{
    json::law_member_is_found(answer, members, i, "models"@);
    json::law_members_and_items(members[i].1);
}

/// A model is listed under the name that it has.
pub proof fn law_name_of_a_model(
    item: LeafView,
    members: Seq<(Seq<char>, Seq<char>)>,
    i: int,
    name: Seq<char>,
)
    requires
        json::json_of(item.text) == Ok::<_, Seq<char>>(JsonView::Object(members)),
        0 <= i < members.len() && members[i].0 == "name"@,
        forall|j: int| 0 <= j < i ==> (#[trigger] members[j]).0 != "name"@,
        json::json_of(members[i].1) == Ok::<_, Seq<char>>(JsonView::Text(name)),
    ensures
        model_in(item) == Some(name),
{
    json::law_member_is_found(item.text, members, i, "name"@);
}

} // verus!
