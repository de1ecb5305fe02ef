//! What the dashboard server answers.

use crate::text;
use vstd::prelude::*;

verus! {

/// The type of a file by the end of its name.
pub open spec fn type_of(path: Seq<char>) -> Seq<char> {
    let ext = text::after_last(path, '.');
    if ext == "html"@ {
        "text/html; charset=utf-8"@
    } else if ext == "js"@ || ext == "mjs"@ {
        "text/javascript; charset=utf-8"@
    } else if ext == "css"@ {
        "text/css; charset=utf-8"@
    } else if ext == "json"@ {
        "application/json"@
    } else if ext == "wasm"@ {
        "application/wasm"@
    } else if ext == "svg"@ {
        "image/svg+xml"@
    } else if ext == "png"@ {
        "image/png"@
    } else if ext == "ico"@ {
        "image/x-icon"@
    } else if ext == "woff2"@ {
        "font/woff2"@
    } else {
        "application/octet-stream"@
    }
}

/// The type of a file by the end of its name.
pub fn content_type(path: &str) -> (r: &'static str)
    ensures
        r@ == type_of(path@),
{
    let ext = text::cut_after(path, '.');
    if text::same(ext, "html") {
        "text/html; charset=utf-8"
    } else if text::same(ext, "js") || text::same(ext, "mjs") {
        "text/javascript; charset=utf-8"
    } else if text::same(ext, "css") {
        "text/css; charset=utf-8"
    } else if text::same(ext, "json") {
        "application/json"
    } else if text::same(ext, "wasm") {
        "application/wasm"
    } else if text::same(ext, "svg") {
        "image/svg+xml"
    } else if text::same(ext, "png") {
        "image/png"
    } else if text::same(ext, "ico") {
        "image/x-icon"
    } else if text::same(ext, "woff2") {
        "font/woff2"
    } else {
        "application/octet-stream"
    }
}

/// The file that a request asks for.
pub open spec fn asset_of(path: Seq<char>) -> Seq<char> {
    let p = text::ltrim_char(path, '/');
    if p.len() == 0 {
        "index.html"@
    } else {
        p
    }
}

/// The file that a request asks for: the start page where none is named.
pub fn asset_path<'a>(path: &'a str) -> (r: &'a str)
    ensures
        r@ == asset_of(path@),
{
    let p = text::trim_start_char(path, '/');
    if p.is_empty() {
        "index.html"
    } else {
        p
    }
}

/// What is sent for a request that no other route takes.
#[derive(Clone, Copy, Debug, PartialEq, Eq, Structural)]
pub enum Static {
    /// The file, with its type.
    File,
    /// The start page, so that the dashboard can show the place itself.
    StartPage,
    /// That the dashboard was not built.
    Missing,
}

/// Decides what is sent: the file, else the start page.
pub fn static_reply(has_file: bool, has_start_page: bool) -> (r: Static)
    ensures
        r == if has_file {
            Static::File
        } else if has_start_page {
            Static::StartPage
        } else {
            Static::Missing
        },
{
    if has_file {
        Static::File
    } else if has_start_page {
        Static::StartPage
    } else {
        Static::Missing
    }
}

/// The models to choose from: those that there are, with the current one in front if it
/// is not among them.
pub open spec fn with_current(models: Seq<Seq<char>>, current: Seq<char>) -> Seq<Seq<char>> {
    if models.contains(current) {
        models
    } else {
        seq![current] + models
    }
}

/// The models to choose from.
pub fn selectable_models(models: Vec<String>, current: &str) -> (r: Vec<String>)
    ensures
        text::views(r@) == with_current(text::views(models@), current@),
{
    let mut out = models;
    if !text::list_contains(&out, current) {
        let ghost before = text::views(out@);
        out.insert(0, current.to_string());
        assert(text::views(out@) =~= seq![current@] + before);
    }
    out
}

/// An answer without contents of its own: a status and perhaps a message.
pub struct Answer {
    pub status: u16,
    pub message: Option<String>,
}

/// What an [`Answer`] says.
#[verifier::ext_equal]
pub struct AnswerView {
    pub status: u16,
    pub message: Option<Seq<char>>,
}

impl View for Answer {
    type V = AnswerView;

    open spec fn view(&self) -> AnswerView {
        AnswerView { status: self.status, message: text::option_view(self.message) }
    }
}

pub open spec fn refused(status: u16, message: Seq<char>) -> AnswerView {
    AnswerView { status, message: Some(message) }
}

fn refuse(status: u16, message: &str) -> (r: Answer)
    ensures
        r@ == refused(status, message@),
{
    Answer { status, message: Some(message.to_string()) }
}

/// A request to spawn an agent.
pub struct SpawnRequest {
    pub def_id: String,
    pub task: String,
}

/// A request to make another model the default.
pub struct SetModelReq {
    pub model: String,
}

/// A request to change a task.
pub struct UpdateReq {
    pub title: String,
    pub body: String,
}

/// A request with a name.
pub struct NameReq {
    pub name: String,
}

/// A request to write a definition.
pub struct GenerateReq {
    pub prompt: String,
}

/// Why an agent cannot be spawned: no task, or no such definition; `known` is what a search
/// for the definition found, or why it failed.
pub open spec fn spawn_refusal(task: Seq<char>, known: Result<bool, Seq<char>>) -> Option<
    AnswerView,
> {
    if text::blank(task) {
        Some(refused(400, "task must not be empty"@))
    } else {
        match known {
            Ok(true) => None,
            Ok(false) => Some(refused(400, "no such agent definition"@)),
            Err(e) => Some(refused(500, e)),
        }
    }
}

/// Decides whether an agent can be spawned.
pub fn check_spawn(req: &SpawnRequest, known: Result<bool, String>) -> (r: Option<Answer>)
    ensures
        spawn_refusal(
            req.task@,
            match known {
                Ok(b) => Ok(b),
                Err(e) => Err(e@),
            },
        ) == match r {
            Some(a) => Some(a@),
            None => None,
        },
{
    if text::is_blank(req.task.as_str()) {
        return Some(refuse(400, "task must not be empty"));
    }
    match known {
        Ok(b) => if b {
            None
        } else {
            Some(refuse(400, "no such agent definition"))
        },
        Err(e) => Some(refuse(500, e.as_str())),
    }
}

/// Decides whether a model can be made the default.
pub fn check_model(req: &SetModelReq) -> (r: Option<Answer>)
    ensures
        match r {
            Some(a) => text::blank(req.model@) && a@ == refused(400, "model must not be empty"@),
            None => !text::blank(req.model@),
        },
{
    if text::is_blank(req.model.as_str()) {
        Some(refuse(400, "model must not be empty"))
    } else {
        None
    }
}

/// The answer to a change: nothing to say, or why it was refused.
pub fn answer_change(outcome: Result<(), String>) -> (r: Answer)
    ensures
        r@ == match outcome {
            Ok(_) => (AnswerView { status: 204, message: None }),
            Err(e) => refused(400, e@),
        },
{
    match outcome {
        Ok(_) => Answer { status: 204, message: None },
        Err(e) => refuse(400, e.as_str()),
    }
}

/// The answer to something that the server does: nothing to say, or that it failed.
pub fn answer_work(outcome: Result<(), String>) -> (r: Answer)
    ensures
        r@ == match outcome {
            Ok(_) => (AnswerView { status: 204, message: None }),
            Err(e) => refused(500, e@),
        },
{
    match outcome {
        Ok(_) => Answer { status: 204, message: None },
        Err(e) => refuse(500, e.as_str()),
    }
}

/// The answer to a request to cancel an agent.
pub fn answer_cancel(found: bool) -> (r: Answer)
    ensures
        r@ == if found {
            (AnswerView { status: 204, message: None })
        } else {
            refused(404, "no such agent"@)
        },
{
    if found {
        Answer { status: 204, message: None }
    } else {
        refuse(404, "no such agent")
    }
}

/// What happens on the event stream of a client.
#[derive(Clone, Copy, Debug, PartialEq, Eq, Structural)]
pub enum StreamStep {
    /// An event to send; whether it could be written as text.
    Event { written: bool },
    /// An event was sent, or could not be.
    Sent { ok: bool },
    /// Events were missed because the client is slow.
    Lagged,
    /// There will be no more events.
    Closed,
    /// The client sent something.
    Received,
    /// The client has gone.
    Gone,
}

/// Whether the event stream of a client goes on.
pub fn stream_goes_on(step: StreamStep) -> (r: bool)
    ensures
        r == match step {
            StreamStep::Event { .. } => true,
            StreamStep::Sent { ok } => ok,
            StreamStep::Lagged => true,
            StreamStep::Closed => false,
            StreamStep::Received => true,
            StreamStep::Gone => false,
        },
{
    match step {
        StreamStep::Event { .. } => true,
        StreamStep::Sent { ok } => ok,
        StreamStep::Lagged => true,
        StreamStep::Closed => false,
        StreamStep::Received => true,
        StreamStep::Gone => false,
    }
}

/// The current model can always be chosen, and nothing that there is gets lost.
pub proof fn law_current_is_selectable(
    models: Seq<Seq<char>>,
    current: Seq<char>,
    other: Seq<char>,
)
    ensures
        with_current(models, current).contains(current),
        models.contains(other) ==> with_current(models, current).contains(other),
{
    let all = seq![current] + models;
    assert(all[0] == current);
    if models.contains(other) {
        let i = choose|i: int| 0 <= i < models.len() && models[i] == other;
        assert(all[i + 1] == other);
    }
}

/// A file never starts with a slash, so that it stays below the directory of the
/// dashboard's files.
pub proof fn law_assets_are_relative(path: Seq<char>)
    ensures
        asset_of(path).len() > 0,
        asset_of(path)[0] != '/',
{
    reveal_strlit("index.html");
    lemma_ltrim_char(path, '/');
}

proof fn lemma_ltrim_char(s: Seq<char>, c: char)
    ensures
        text::ltrim_char(s, c).len() > 0 ==> text::ltrim_char(s, c)[0] != c,
    decreases s.len(),
{
    if s.len() > 0 && s[0] == c {
        lemma_ltrim_char(s.drop_first(), c);
    }
}

/// The type of a file goes by what stands behind the last dot of its name, whatever stands
/// before it.
pub proof fn law_types(dir: Seq<char>, ext: Seq<char>)
    requires
        crate::text_facts::free_of(ext, '.'),
    ensures
        type_of(dir + seq!['.'] + ext) == type_of(ext),
        type_of(dir + seq!['.'] + "html"@) == "text/html; charset=utf-8"@,
        type_of(dir + seq!['.'] + "js"@) == "text/javascript; charset=utf-8"@,
        type_of(dir + seq!['.'] + "mjs"@) == "text/javascript; charset=utf-8"@,
        type_of(dir + seq!['.'] + "css"@) == "text/css; charset=utf-8"@,
        type_of(dir + seq!['.'] + "json"@) == "application/json"@,
        type_of(dir + seq!['.'] + "wasm"@) == "application/wasm"@,
        type_of(dir + seq!['.'] + "svg"@) == "image/svg+xml"@,
        type_of(dir + seq!['.'] + "png"@) == "image/png"@,
        type_of(dir + seq!['.'] + "ico"@) == "image/x-icon"@,
        type_of(dir + seq!['.'] + "woff2"@) == "font/woff2"@,
        !({
            ||| ext == "html"@
            ||| ext == "js"@
            ||| ext == "mjs"@
            ||| ext == "css"@
            ||| ext == "json"@
            ||| ext == "wasm"@
            ||| ext == "svg"@
            ||| ext == "png"@
            ||| ext == "ico"@
            ||| ext == "woff2"@
        }) ==> type_of(dir + seq!['.'] + ext) == "application/octet-stream"@,
{
    reveal_strlit("html");
    reveal_strlit("js");
    reveal_strlit("mjs");
    reveal_strlit("css");
    reveal_strlit("json");
    reveal_strlit("wasm");
    reveal_strlit("svg");
    reveal_strlit("png");
    reveal_strlit("ico");
    reveal_strlit("woff2");
    assert("html"@[0] == 'h' && "html"@.len() == 4);
    assert("js"@.len() == 2 && "mjs"@.len() == 3 && "mjs"@[0] == 'm');
    assert("css"@.len() == 3 && "css"@[0] == 'c');
    assert("json"@.len() == 4 && "json"@[0] == 'j');
    assert("wasm"@.len() == 4 && "wasm"@[0] == 'w');
    assert("svg"@.len() == 3 && "svg"@[0] == 's');
    assert("png"@.len() == 3 && "png"@[0] == 'p');
    assert("ico"@.len() == 3 && "ico"@[0] == 'i');
    assert("woff2"@.len() == 5);
    lemma_extension(dir, ext);
    lemma_extension(dir, "html"@);
    lemma_extension(dir, "js"@);
    lemma_extension(dir, "mjs"@);
    lemma_extension(dir, "css"@);
    lemma_extension(dir, "json"@);
    lemma_extension(dir, "wasm"@);
    lemma_extension(dir, "svg"@);
    lemma_extension(dir, "png"@);
    lemma_extension(dir, "ico"@);
    lemma_extension(dir, "woff2"@);
}

proof fn lemma_extension(dir: Seq<char>, ext: Seq<char>)
    requires
        crate::text_facts::free_of(ext, '.'),
    ensures
        text::after_last(dir + seq!['.'] + ext, '.') == ext,
        text::after_last(ext, '.') == ext,
{
    lemma_last_dot(dir, ext);
    lemma_no_dot(ext);
    assert((dir + seq!['.'] + ext).skip(dir.len() as int + 1) =~= ext);
}

proof fn lemma_last_dot(dir: Seq<char>, ext: Seq<char>)
    requires
        crate::text_facts::free_of(ext, '.'),
    ensures
        text::last_char(dir + seq!['.'] + ext, '.') == Some(dir.len() as int),
    decreases ext.len(),
{
    let s = dir + seq!['.'] + ext;
    if ext.len() == 0 {
        assert(s.last() == '.');
    } else {
        assert(s.last() == ext[ext.len() - 1]);
        assert(s.drop_last() =~= dir + seq!['.'] + ext.drop_last());
        assert forall|i: int| 0 <= i < ext.drop_last().len() implies #[trigger] ext.drop_last()[i]
            != '.' by {
            assert(ext.drop_last()[i] == ext[i]);
        }
        lemma_last_dot(dir, ext.drop_last());
    }
}

proof fn lemma_no_dot(ext: Seq<char>)
    requires
        crate::text_facts::free_of(ext, '.'),
    ensures
        text::last_char(ext, '.') is None,
    decreases ext.len(),
{
    if ext.len() > 0 {
        assert(ext[ext.len() - 1] != '.');
        assert forall|i: int| 0 <= i < ext.drop_last().len() implies #[trigger] ext.drop_last()[i]
            != '.' by {
            assert(ext.drop_last()[i] == ext[i]);
        }
        lemma_no_dot(ext.drop_last());
    }
}

/// The file of a path is all of the path behind its slashes, and the start page where there is
/// nothing behind them.
pub proof fn law_asset_is_the_path(slashes: Seq<char>, path: Seq<char>)
    requires
        forall|i: int| 0 <= i < slashes.len() ==> #[trigger] slashes[i] == '/',
        path.len() > 0 ==> path[0] != '/',
    ensures
        path.len() > 0 ==> asset_of(slashes + path) == path,
        asset_of(slashes) == "index.html"@,
{
    lemma_slashes(slashes, path);
    lemma_slashes(slashes, Seq::empty());
    assert(slashes + Seq::<char>::empty() =~= slashes);
}

proof fn lemma_slashes(slashes: Seq<char>, path: Seq<char>)
    requires
        forall|i: int| 0 <= i < slashes.len() ==> #[trigger] slashes[i] == '/',
        path.len() > 0 ==> path[0] != '/',
    ensures
        text::ltrim_char(slashes + path, '/') == path,
    decreases slashes.len(),
{
    let s = slashes + path;
    if slashes.len() == 0 {
        assert(s =~= path);
    } else {
        let t = slashes.drop_first();
        assert(s[0] == slashes[0]);
        assert(s.drop_first() =~= t + path);
        assert forall|i: int| 0 <= i < t.len() implies #[trigger] t[i] == '/' by {
            assert(t[i] == slashes[i + 1]);
        }
        lemma_slashes(t, path);
    }
}

/// An agent is spawned only for a task that says something and a definition that there is.
pub proof fn law_spawning(task: Seq<char>, known: Result<bool, Seq<char>>)
    ensures
        spawn_refusal(task, known) is None <==> (exists|i: int|
            0 <= i < task.len() && !text::white(#[trigger] task[i])) && known == Ok::<_, Seq<char>>(
            true,
        ),
        spawn_refusal(task, known) matches Some(a) ==> 400 <= a.status < 600 && a.message is Some,
        known matches Err(e) ==> (!text::blank(task) ==> spawn_refusal(task, known) == Some(
            AnswerView { status: 500, message: Some(e) },
        )),
{
    if text::blank(task) {
        assert forall|i: int| 0 <= i < task.len() implies text::white(#[trigger] task[i]) by {}
    }
}

/// A list of models stays as it is but for the current one, which is put in front where it was
/// missing and never twice.
pub proof fn law_list_of_models(models: Seq<Seq<char>>, current: Seq<char>)
    ensures
        models.contains(current) ==> with_current(models, current) == models,
        !models.contains(current) ==> with_current(models, current).len() == models.len() + 1
            && with_current(models, current)[0] == current && with_current(
            models,
            current,
        ).drop_first() == models,
        with_current(with_current(models, current), current) == with_current(models, current),
{
    let w = with_current(models, current);
    if !models.contains(current) {
        assert(w[0] == current);
        assert(w.drop_first() =~= models);
    }
}

} // verus!
