//! What the subcommands print and change.

use crate::cli::{ConfigAction, ModelAction};
use crate::config;
use crate::config::{AxonConfig, AxonConfigView, ModelEntry, ModelEntryView};
use crate::text;
use crate::text_facts;
use vstd::prelude::*;

verus! {

/// What a subcommand prints, and whether the configuration is to be saved first.
pub struct Report {
    pub text: String,
    pub save: bool,
}

/// What a [`Report`] says.
#[verifier::ext_equal]
pub struct ReportView {
    pub text: Seq<char>,
    pub save: bool,
}

impl View for Report {
    type V = ReportView;

    open spec fn view(&self) -> ReportView {
        ReportView { text: self.text@, save: self.save }
    }
}

// -- the daemon --------------------------------------------------------------

/// What stopping the daemon takes.
pub struct StopPlan {
    /// Whether the daemon is ended and its files are removed.
    pub invalidate: bool,
    pub message: String,
}

/// Decides what stopping the daemon takes: `pid` is what the pid file says, and `alive`
/// whether there is such a process.
pub fn stop(pid: Option<u32>, alive: bool) -> (r: StopPlan)
    ensures
        r.invalidate == (pid is Some),
        r.message@ == match pid {
            None => "No daemon is running."@,
            Some(p) => if alive {
                "Stopped daemon (pid "@ + text::decimal(p as nat) + ")."@
            } else {
                "No daemon is running (stale pid file, cleaning up)."@
            },
        },
{
    match pid {
        None => StopPlan { invalidate: false, message: "No daemon is running.".to_string() },
        Some(p) => {
            if alive {
                let mut m = "Stopped daemon (pid ".to_string();
                m.append(text::to_decimal(p as u64).as_str());
                m.append(").");
                StopPlan { invalidate: true, message: m }
            } else {
                StopPlan {
                    invalidate: true,
                    message: "No daemon is running (stale pid file, cleaning up).".to_string(),
                }
            }
        },
    }
}

/// The status of the daemon: its pid if the pid file names one, whether that process is
/// alive, its port if the port file names one, whether that port accepts connections, what
/// the model file says and where the log is.
pub open spec fn status_text(
    pid: Option<u32>,
    alive: bool,
    port: Option<u16>,
    reachable: bool,
    model: Seq<char>,
    log: Seq<char>,
) -> Seq<char> {
    match pid {
        None => "daemon:  not running\n"@,
        Some(p) => if !alive {
            "daemon:  dead (stale pid file — run `axon stop` to clean up)\n"@
        } else {
            "daemon:  running  (pid "@ + text::decimal(p as nat) + ")\n"@ + (match port {
                Some(q) => "port:    "@ + text::decimal(q as nat) + "\n"@,
                None => "port:    (not yet bound — model loading)\n"@,
            }) + "model:   "@ + text::trimmed(model) + "\nstatus:  "@ + (match port {
                Some(_) => if reachable {
                    "accepting connections"@
                } else {
                    "not responding"@
                },
                None => "loading model…"@,
            }) + "\nlog:     "@ + log + "\n"@
        },
    }
}

/// The status of the daemon.
pub fn status(
    pid: Option<u32>,
    alive: bool,
    port: Option<u16>,
    reachable: bool,
    model: &str,
    log: &str,
) -> (r: String)
    ensures
        r@ == status_text(pid, alive, port, reachable, model@, log@),
{
    let p = match pid {
        None => {
            return "daemon:  not running\n".to_string();
        },
        Some(p) => p,
    };
    if !alive {
        return "daemon:  dead (stale pid file — run `axon stop` to clean up)\n".to_string();
    }
    let mut out = "daemon:  running  (pid ".to_string();
    out.append(text::to_decimal(p as u64).as_str());
    out.append(")\n");
    let ghost head = out@;
    match port {
        Some(q) => {
            out.append("port:    ");
            out.append(text::to_decimal(q as u64).as_str());
            out.append("\n");
            assert(out@ =~= head + ("port:    "@ + text::decimal(q as nat) + "\n"@));
        },
        None => {
            out.append("port:    (not yet bound — model loading)\n");
        },
    }
    out.append("model:   ");
    out.append(text::trim(model));
    out.append("\nstatus:  ");
    match port {
        Some(_) => {
            if reachable {
                out.append("accepting connections");
            } else {
                out.append("not responding");
            }
        },
        None => {
            out.append("loading model…");
        },
    }
    out.append("\nlog:     ");
    out.append(log);
    out.append("\n");
    out
}

// -- the configuration -------------------------------------------------------

pub open spec fn or_not_set(v: Option<Seq<char>>) -> Seq<char> {
    match v {
        Some(t) => t,
        None => "(not set)"@,
    }
}

pub open spec fn bool_text(b: bool) -> Seq<char> {
    if b {
        "true"@
    } else {
        "false"@
    }
}

/// The value of a key as it is shown, or why there is none.
pub open spec fn config_value(c: AxonConfigView, key: Seq<char>) -> Result<Seq<char>, Seq<char>> {
    if key == "model"@ {
        Ok(or_not_set(c.model))
    } else if key == "backend"@ {
        Ok(or_not_set(c.backend))
    } else if key == "ollama-url"@ {
        Ok(or_not_set(c.ollama_url))
    } else if key == "context-window"@ {
        Ok(
            match c.context_window {
                Some(n) => text::decimal(n as nat),
                None => "(not set)"@,
            },
        )
    } else if key == "no-download"@ {
        Ok(
            match c.no_download {
                Some(b) => bool_text(b),
                None => "(not set)"@,
            },
        )
    } else {
        Err("unknown key '"@ + key + "'"@)
    }
}

fn value_or_not_set(v: &Option<String>) -> (r: String)
    ensures
        r@ == or_not_set(text::option_view(*v)),
{
    match v {
        Some(t) => t.clone(),
        None => "(not set)".to_string(),
    }
}

fn show_bool(b: bool) -> (r: &'static str)
    ensures
        r@ == bool_text(b),
{
    if b {
        "true"
    } else {
        "false"
    }
}

/// The value of a key as it is shown.
pub fn get_value(config: &AxonConfig, key: &str) -> (r: Result<String, String>)
    ensures
        config_value(config@, key@) == match r {
            Ok(v) => Ok(v@),
            Err(e) => Err(e@),
        },
{
    if text::same(key, "model") {
        Ok(value_or_not_set(&config.model))
    } else if text::same(key, "backend") {
        Ok(value_or_not_set(&config.backend))
    } else if text::same(key, "ollama-url") {
        Ok(value_or_not_set(&config.ollama_url))
    } else if text::same(key, "context-window") {
        match config.context_window {
            Some(n) => Ok(text::to_decimal(n as u64)),
            None => Ok("(not set)".to_string()),
        }
    } else if text::same(key, "no-download") {
        match config.no_download {
            Some(b) => Ok(show_bool(b).to_string()),
            None => Ok("(not set)".to_string()),
        }
    } else {
        let mut m = "unknown key '".to_string();
        m.append(key);
        m.append("'");
        Err(m)
    }
}

/// A line for a value that is set.
pub open spec fn value_line(label: Seq<char>, v: Option<Seq<char>>) -> Seq<char> {
    match v {
        Some(t) => label + t + "\n"@,
        None => Seq::empty(),
    }
}

/// The lines for a registered model.
pub open spec fn entry_text(m: ModelEntryView) -> Seq<char> {
    "  "@ + m.name + " ("@ + text::decimal(m.context_window as nat) + " ctx tokens)\n    repo: "@
        + m.hf_repo + "\n"@ + (if m.hf_file.len() > 0 {
        "    file: "@ + m.hf_file + "\n"@
    } else {
        Seq::empty()
    })
}

pub open spec fn entries_text(ms: Seq<ModelEntryView>) -> Seq<char>
    decreases ms.len(),
{
    if ms.len() == 0 {
        Seq::empty()
    } else {
        entries_text(ms.drop_last()) + entry_text(ms.last())
    }
}

/// A heading and the registered models, where there are any.
pub open spec fn registered_text(heading: Seq<char>, ms: Seq<ModelEntryView>) -> Seq<char> {
    if ms.len() > 0 {
        heading + entries_text(ms)
    } else {
        Seq::empty()
    }
}

pub open spec fn size_option(v: Option<usize>) -> Option<Seq<char>> {
    match v {
        Some(n) => Some(text::decimal(n as nat)),
        None => None,
    }
}

pub open spec fn bool_option(v: Option<bool>) -> Option<Seq<char>> {
    match v {
        Some(b) => Some(bool_text(b)),
        None => None,
    }
}

/// The whole configuration as it is shown.
pub open spec fn config_text(path: Seq<char>, c: AxonConfigView) -> Seq<char> {
    "# "@ + path + "\n"@ + value_line("model = "@, c.model) + value_line("backend = "@, c.backend)
        + value_line("ollama-url = "@, c.ollama_url) + value_line(
        "context-window = "@,
        size_option(c.context_window),
    ) + value_line("no-download = "@, bool_option(c.no_download)) + registered_text(
        "\nRegistered models:\n"@,
        c.models,
    )
}

fn append_value(out: &mut String, label: &str, v: &Option<String>)
    ensures
        final(out)@ == old(out)@ + value_line(label@, text::option_view(*v)),
{
    let ghost before = out@;
    match v {
        Some(t) => {
            out.append(label);
            out.append(t.as_str());
            out.append("\n");
            assert(out@ =~= before + (label@ + t@ + "\n"@));
        },
        None => {
            assert(out@ =~= before + Seq::<char>::empty());
        },
    }
}

fn append_entry(out: &mut String, m: &ModelEntry)
    ensures
        final(out)@ == old(out)@ + entry_text(m@),
{
    let ghost before = out@;
    out.append("  ");
    out.append(m.name.as_str());
    out.append(" (");
    out.append(text::to_decimal(m.context_window as u64).as_str());
    out.append(" ctx tokens)\n    repo: ");
    out.append(m.hf_repo.as_str());
    out.append("\n");
    if !m.hf_file.as_str().is_empty() {
        out.append("    file: ");
        out.append(m.hf_file.as_str());
        out.append("\n");
    }
    assert(out@ =~= before + entry_text(m@));
}

fn append_registered(out: &mut String, heading: &str, models: &Vec<ModelEntry>)
    ensures
        final(out)@ == old(out)@ + registered_text(heading@, config::entry_views(models@)),
{
    let ghost before = out@;
    let ghost all = config::entry_views(models@);
    if models.len() == 0 {
        assert(out@ =~= before + Seq::<char>::empty());
        return ;
    }
    out.append(heading);
    let mut i: usize = 0;
    assert(all.take(0) =~= Seq::<ModelEntryView>::empty());
    assert(out@ =~= before + heading@ + entries_text(all.take(0)));
    while i < models.len()
        invariant
            i <= models.len(),
            all == config::entry_views(models@),
            out@ == before + heading@ + entries_text(all.take(i as int)),
        decreases models.len() - i,
    {
        assert(all.take(i + 1).drop_last() =~= all.take(i as int));
        assert(all.take(i + 1).last() == models[i as int]@);
        append_entry(out, &models[i]);
        i += 1;
        assert(out@ =~= before + heading@ + entries_text(all.take(i as int)));
    }
    assert(all.take(i as int) =~= all);
    assert(out@ =~= before + (heading@ + entries_text(all)));
}

fn size_text(v: Option<usize>) -> (r: Option<String>)
    ensures
        text::option_view(r) == size_option(v),
{
    match v {
        Some(n) => Some(text::to_decimal(n as u64)),
        None => None,
    }
}

fn bool_value(v: Option<bool>) -> (r: Option<String>)
    ensures
        text::option_view(r) == bool_option(v),
{
    match v {
        Some(b) => Some(show_bool(b).to_string()),
        None => None,
    }
}

/// The whole configuration, which is saved at `path`, as it is shown.
pub fn list_config(config: &AxonConfig, path: &str) -> (r: String)
    ensures
        r@ == config_text(path@, config@),
{
    let mut out = "# ".to_string();
    out.append(path);
    out.append("\n");
    append_value(&mut out, "model = ", &config.model);
    append_value(&mut out, "backend = ", &config.backend);
    append_value(&mut out, "ollama-url = ", &config.ollama_url);
    append_value(&mut out, "context-window = ", &size_text(config.context_window));
    append_value(&mut out, "no-download = ", &bool_value(config.no_download));
    append_registered(&mut out, "\nRegistered models:\n", &config.models);
    out
}

/// What a configuration subcommand does.
pub open spec fn config_outcome(
    c: AxonConfigView,
    action: ConfigActionView,
    path: Seq<char>,
) -> Result<(AxonConfigView, ReportView), Seq<char>> {
    match action {
        ConfigActionView::SetValue { key, value } => match config::with_value(c, key, value) {
            Ok(d) => Ok(
                (
                    d,
                    ReportView { text: "Set "@ + key + " = "@ + value + "\n"@, save: true },
                ),
            ),
            Err(e) => Err(e),
        },
        ConfigActionView::Get { key } => match config_value(c, key) {
            Ok(v) => Ok((c, ReportView { text: v + "\n"@, save: false })),
            Err(e) => Err(e),
        },
        ConfigActionView::List => Ok((c, ReportView { text: config_text(path, c), save: false })),
    }
}

/// What a [`ConfigAction`] says.
pub enum ConfigActionView {
    SetValue { key: Seq<char>, value: Seq<char> },
    Get { key: Seq<char> },
    List,
}

impl View for ConfigAction {
    type V = ConfigActionView;

    open spec fn view(&self) -> ConfigActionView {
        match self {
            ConfigAction::SetValue { key, value } => ConfigActionView::SetValue {
                key: key@,
                value: value@,
            },
            ConfigAction::Get { key } => ConfigActionView::Get { key: key@ },
            ConfigAction::List => ConfigActionView::List,
        }
    }
}

/// Carries out a configuration subcommand.
pub fn handle_config(action: &ConfigAction, config: &mut AxonConfig, path: &str) -> (r: Result<
    Report,
    String,
>)
    ensures
        match config_outcome(old(config)@, action@, path@) {
            Ok((c, report)) => (r matches Ok(x) && x@ == report) && final(config)@ == c,
            Err(e) => (r matches Err(m) && m@ == e) && final(config)@ == old(config)@,
        },
{
    match action {
        ConfigAction::SetValue { key, value } => match config.set(key.as_str(), value.as_str()) {
            Ok(_) => {
                let mut t = "Set ".to_string();
                t.append(key.as_str());
                t.append(" = ");
                t.append(value.as_str());
                t.append("\n");
                Ok(Report { text: t, save: true })
            },
            Err(e) => Err(e),
        },
        ConfigAction::Get { key } => match get_value(config, key.as_str()) {
            Ok(v) => Ok(Report { text: text::cat(v.as_str(), "\n"), save: false }),
            Err(e) => Err(e),
        },
        ConfigAction::List => Ok(Report { text: list_config(config, path), save: false }),
    }
}

/// What was set is what is shown afterwards: a number in its shortest form, anything else as
/// it was given; and no other key shows anything new.
pub proof fn law_set_is_shown(
    c: AxonConfigView,
    key: Seq<char>,
    value: Seq<char>,
    other: Seq<char>,
)
    requires
        config::with_value(c, key, value) is Ok,
    ensures
        ({
            let d = config::with_value(c, key, value)->Ok_0;
            &&& config_value(d, key) == Ok::<_, Seq<char>>(
                if key == "context-window"@ {
                    text::decimal(text::size_in(value)->0 as nat)
                } else {
                    value
                },
            )
            &&& other != key ==> config_value(d, other) == config_value(c, other)
        }),
{
    reveal_strlit("model");
    reveal_strlit("backend");
    reveal_strlit("ollama-url");
    reveal_strlit("context-window");
    reveal_strlit("no-download");
    assert("model"@.len() == 5 && "backend"@.len() == 7 && "ollama-url"@.len() == 10);
    assert("context-window"@.len() == 14 && "no-download"@.len() == 11);
}

// -- the models --------------------------------------------------------------

/// The registered models with one more; one of the same name is changed where it stands.
pub open spec fn with_model(ms: Seq<ModelEntryView>, m: ModelEntryView) -> Seq<ModelEntryView>
    decreases ms.len(),
{
    if ms.len() == 0 {
        seq![m]
    } else if ms[0].name == m.name {
        seq![m] + ms.drop_first()
    } else {
        seq![ms[0]] + with_model(ms.drop_first(), m)
    }
}

/// The registered models without those of a name.
pub open spec fn without_model(ms: Seq<ModelEntryView>, name: Seq<char>) -> Seq<ModelEntryView> {
    ms.filter(|m: ModelEntryView| m.name != name)
}

/// What the model list says of the built-in models.
pub const BUILTIN_MODELS: &'static str = "Built-in models:
  qwen3.5:2b   32768 ctx  ~1.3 GB
    repo: unsloth/Qwen3.5-2B-GGUF
    file: Qwen3.5-2B-Q4_K_M.gguf

  qwen3.5:4b-mlx   32768 ctx  ~2.7 GB  (recommended on macOS)
    repo: unsloth/Qwen3.5-4B-GGUF
    file: Qwen3.5-4B-Q4_K_M.gguf

  qwen3:4b   32768 ctx  ~2.5 GB
    repo: unsloth/Qwen3-4B-GGUF
    file: Qwen3-4B-Q4_K_M.gguf

To use Ollama instead:
  axon -b ollama -m <model> \"hello\"
  axon config set backend ollama
  axon config set model <model>
";

/// What a [`ModelAction`] says.
pub enum ModelActionView {
    Add { name: Seq<char>, repo: Seq<char>, file: Seq<char>, context_window: usize },
    Remove { name: Seq<char> },
    List,
}

impl View for ModelAction {
    type V = ModelActionView;

    open spec fn view(&self) -> ModelActionView {
        match self {
            ModelAction::Add { name, repo, file, context_window } => ModelActionView::Add {
                name: name@,
                repo: repo@,
                file: file@,
                context_window: *context_window,
            },
            ModelAction::Remove { name } => ModelActionView::Remove { name: name@ },
            ModelAction::List => ModelActionView::List,
        }
    }
}

/// What a model subcommand does.
pub open spec fn model_outcome(c: AxonConfigView, action: ModelActionView) -> (
    AxonConfigView,
    ReportView,
) {
    match action {
        ModelActionView::Add { name, repo, file, context_window } => (
            AxonConfigView {
                models: with_model(
                    c.models,
                    ModelEntryView { name, hf_repo: repo, hf_file: file, context_window },
                ),
                ..c
            },
            ReportView {
                text: (if config::registered(c.models, name) is Some {
                    "Updated model '"@
                } else {
                    "Registered model '"@
                }) + name + "'\n"@,
                save: true,
            },
        ),
        ModelActionView::Remove { name } => {
            let kept = without_model(c.models, name);
            (
                AxonConfigView { models: kept, ..c },
                if kept.len() < c.models.len() {
                    ReportView { text: "Removed model '"@ + name + "'\n"@, save: true }
                } else {
                    ReportView {
                        text: "Model '"@ + name + "' not found in user registry\n"@,
                        save: false,
                    }
                },
            )
        },
        ModelActionView::List => (
            c,
            ReportView {
                text: BUILTIN_MODELS@ + registered_text("\nUser-defined models:\n"@, c.models),
                save: false,
            },
        ),
    }
}

proof fn lemma_with_model(ms: Seq<ModelEntryView>, m: ModelEntryView, i: int)
    requires
        0 <= i <= ms.len(),
        forall|j: int| 0 <= j < i ==> (#[trigger] ms[j]).name != m.name,
        i < ms.len() ==> ms[i].name == m.name,
    ensures
        with_model(ms, m) == if i < ms.len() {
            ms.update(i, m)
        } else {
            ms.push(m)
        },
        config::registered(ms, m.name) is Some <==> i < ms.len(),
    decreases ms.len(),
{
    if ms.len() == 0 {
        assert(with_model(ms, m) =~= ms.push(m));
    } else if i == 0 {
        assert(with_model(ms, m) =~= ms.update(0, m));
    } else {
        let rest = ms.drop_first();
        assert(ms[0].name != m.name);
        assert forall|j: int| 0 <= j < i - 1 implies (#[trigger] rest[j]).name != m.name by {
            assert(rest[j] == ms[j + 1]);
        }
        lemma_with_model(rest, m, i - 1);
        if i < ms.len() {
            assert(with_model(ms, m) =~= ms.update(i, m));
        } else {
            assert(with_model(ms, m) =~= ms.push(m));
        }
    }
}

/// Registers a model; says whether there was one of that name.
fn add_model(config: &mut AxonConfig, entry: ModelEntry) -> (r: bool)
    ensures
        r == (config::registered(old(config)@.models, entry@.name) is Some),
        final(config)@ == (AxonConfigView {
            models: with_model(old(config)@.models, entry@),
            ..old(config)@
        }),
{
    let ghost all = config@.models;
    let ghost m = entry@;
    let mut i: usize = 0;
    while i < config.models.len() && !text::same(
        config.models[i].name.as_str(),
        entry.name.as_str(),
    )
        invariant
            i <= config.models.len(),
            all == config::entry_views(config.models@),
            m == entry@,
            config@ == old(config)@,
            forall|j: int| 0 <= j < i ==> (#[trigger] all[j]).name != m.name,
        decreases config.models.len() - i,
    {
        assert(all[i as int].name == config.models[i as int].name@);
        i += 1;
    }
    proof {
        if i < all.len() {
            assert(all[i as int].name == config.models[i as int].name@);
        }
        lemma_with_model(all, m, i as int);
    }
    if i < config.models.len() {
        config.models.set(i, entry);
        assert(config::entry_views(config.models@) =~= all.update(i as int, m));
        true
    } else {
        config.models.push(entry);
        assert(config::entry_views(config.models@) =~= all.push(m));
        false
    }
}

/// Takes the models of a name out; says whether there was one.
fn remove_model(config: &mut AxonConfig, name: &str) -> (r: bool)
    ensures
        final(config)@ == (AxonConfigView {
            models: without_model(old(config)@.models, name@),
            ..old(config)@
        }),
        r == (without_model(old(config)@.models, name@).len() < old(config)@.models.len()),
{
    let ghost all = config@.models;
    let ghost keep = |m: ModelEntryView| m.name != name@;
    let mut kept: Vec<ModelEntry> = Vec::new();
    let mut i: usize = 0;
    proof {
        assert(all.take(0) =~= Seq::<ModelEntryView>::empty());
        reveal_with_fuel(Seq::filter, 1);
        assert(config::entry_views(kept@) =~= all.take(0).filter(keep));
    }
    while i < config.models.len()
        invariant
            i <= config.models.len(),
            all == config::entry_views(config.models@),
            config@ == old(config)@,
            keep == (|m: ModelEntryView| m.name != name@),
            config::entry_views(kept@) == all.take(i as int).filter(keep),
        decreases config.models.len() - i,
    {
        let ghost before = config::entry_views(kept@);
        proof {
            assert(all.take(i + 1).drop_last() =~= all.take(i as int));
            assert(all.take(i + 1).last() == config.models[i as int]@);
            reveal_with_fuel(Seq::filter, 2);
        }
        if !text::same(config.models[i].name.as_str(), name) {
            let m = config.models[i].clone();
            let ghost v = m@;
            kept.push(m);
            assert(config::entry_views(kept@) =~= before.push(v));
        }
        i += 1;
    }
    assert(all.take(i as int) =~= all);
    let fewer = kept.len() < config.models.len();
    assert(kept.len() == config::entry_views(kept@).len());
    config.models = kept;
    fewer
}

/// Carries out a model subcommand.
pub fn handle_model(action: &ModelAction, config: &mut AxonConfig) -> (r: Report)
    ensures
        (final(config)@, r@) == model_outcome(old(config)@, action@),
{
    match action {
        ModelAction::Add { name, repo, file, context_window } => {
            let entry = ModelEntry {
                name: name.clone(),
                hf_repo: repo.clone(),
                hf_file: file.clone(),
                context_window: *context_window,
            };
            let known = add_model(config, entry);
            let mut t = if known {
                "Updated model '".to_string()
            } else {
                "Registered model '".to_string()
            };
            t.append(name.as_str());
            t.append("'\n");
            Report { text: t, save: true }
        },
        ModelAction::Remove { name } => {
            if remove_model(config, name.as_str()) {
                let mut t = "Removed model '".to_string();
                t.append(name.as_str());
                t.append("'\n");
                Report { text: t, save: true }
            } else {
                let mut t = "Model '".to_string();
                t.append(name.as_str());
                t.append("' not found in user registry\n");
                Report { text: t, save: false }
            }
        },
        ModelAction::List => {
            let mut t = BUILTIN_MODELS.to_string();
            append_registered(&mut t, "\nUser-defined models:\n", &config.models);
            Report { text: t, save: false }
        },
    }
}

/// A model that was registered is found under its name, and others are found as before.
pub proof fn law_registered_model_is_found(
    ms: Seq<ModelEntryView>,
    m: ModelEntryView,
    other: Seq<char>,
)
    ensures
        config::registered(with_model(ms, m), m.name) == Some(m),
        other != m.name ==> config::registered(with_model(ms, m), other) == config::registered(
            ms,
            other,
        ),
    decreases ms.len(),
{
    let all = with_model(ms, m);
    if ms.len() == 0 {
        assert(all.drop_first() =~= Seq::<ModelEntryView>::empty());
        assert(config::registered(Seq::<ModelEntryView>::empty(), other) is None);
    } else if ms[0].name == m.name {
        assert(all.drop_first() =~= ms.drop_first());
    } else {
        law_registered_model_is_found(ms.drop_first(), m, other);
        assert(all.drop_first() =~= with_model(ms.drop_first(), m));
    }
}

/// A model that was removed is not found any more, and others are found as before.
pub proof fn law_removed_model_is_gone(
    ms: Seq<ModelEntryView>,
    name: Seq<char>,
    other: Seq<char>,
)
    ensures
        config::registered(without_model(ms, name), name) is None,
        other != name ==> config::registered(without_model(ms, name), other)
            == config::registered(ms, other),
    decreases ms.len(),
{
    let keep = |m: ModelEntryView| m.name != name;
    reveal_with_fuel(Seq::filter, 2);
    if ms.len() > 0 {
        let rest = ms.drop_first();
        law_removed_model_is_gone(rest, name, other);
        lemma_filter_first(ms, keep);
        if keep(ms[0]) {
            let all = seq![ms[0]] + rest.filter(keep);
            assert(all.drop_first() =~= rest.filter(keep));
        }
    }
}

proof fn lemma_filter_first(ms: Seq<ModelEntryView>, keep: spec_fn(ModelEntryView) -> bool)
    requires
        ms.len() > 0,
    ensures
        ms.filter(keep) == if keep(ms[0]) {
            seq![ms[0]] + ms.drop_first().filter(keep)
        } else {
            ms.drop_first().filter(keep)
        },
    decreases ms.len(),
{
    reveal_with_fuel(Seq::filter, 2);
    let rest = ms.drop_first();
    if ms.len() == 1 {
        assert(ms.drop_last() =~= Seq::<ModelEntryView>::empty());
        assert(rest =~= Seq::<ModelEntryView>::empty());
        assert(ms.filter(keep) =~= if keep(ms[0]) {
            seq![ms[0]] + rest.filter(keep)
        } else {
            rest.filter(keep)
        });
    } else {
        let init = ms.drop_last();
        lemma_filter_first(init, keep);
        assert(init.drop_first() =~= rest.drop_last());
        assert(rest.last() == ms.last());
        assert(ms.filter(keep) =~= if keep(ms[0]) {
            seq![ms[0]] + rest.filter(keep)
        } else {
            rest.filter(keep)
        });
    }
}

/// The list of the configuration shows every value that is set, whole and under its key, and
/// opens with the place of the file.
pub proof fn law_list_shows_what_is_set(path: Seq<char>, c: AxonConfigView)
    ensures
        text::begins_with(config_text(path, c), "# "@ + path + "\n"@),
        c.model matches Some(m) ==> text_facts::part_of(
            "model = "@ + m + "\n"@,
            config_text(path, c),
        ),
        c.backend matches Some(m) ==> text_facts::part_of(
            "backend = "@ + m + "\n"@,
            config_text(path, c),
        ),
        c.ollama_url matches Some(m) ==> text_facts::part_of(
            "ollama-url = "@ + m + "\n"@,
            config_text(path, c),
        ),
        c.context_window matches Some(n) ==> text_facts::part_of(
            "context-window = "@ + text::decimal(n as nat) + "\n"@,
            config_text(path, c),
        ),
        c.no_download == Some(true) ==> text_facts::part_of(
            "no-download = "@ + "true"@ + "\n"@,
            config_text(path, c),
        ),
        c.no_download == Some(false) ==> text_facts::part_of(
            "no-download = "@ + "false"@ + "\n"@,
            config_text(path, c),
        ),
        c.models.len() > 0 ==> text_facts::part_of(entries_text(c.models), config_text(path, c)),
{
    let s = config_text(path, c);
    let p0 = "# "@ + path + "\n"@;
    let l1 = value_line("model = "@, c.model);
    let l2 = value_line("backend = "@, c.backend);
    let l3 = value_line("ollama-url = "@, c.ollama_url);
    let l4 = value_line("context-window = "@, size_option(c.context_window));
    let l5 = value_line("no-download = "@, bool_option(c.no_download));
    let l6 = registered_text("\nRegistered models:\n"@, c.models);
    let s1 = p0 + l1;
    let s2 = s1 + l2;
    let s3 = s2 + l3;
    let s4 = s3 + l4;
    let s5 = s4 + l5;
    assert(s == s5 + l6);
    assert(s.subrange(0, p0.len() as int) =~= p0);
    text_facts::lemma_part_end(p0, l1);
    text_facts::lemma_part_end(s1, l2);
    text_facts::lemma_part_end(s2, l3);
    text_facts::lemma_part_end(s3, l4);
    text_facts::lemma_part_end(s4, l5);
    text_facts::lemma_part_end(s5, l6);
    text_facts::lemma_part_grows(l1, s1, l2);
    text_facts::lemma_part_grows(l1, s2, l3);
    text_facts::lemma_part_grows(l1, s3, l4);
    text_facts::lemma_part_grows(l1, s4, l5);
    text_facts::lemma_part_grows(l1, s5, l6);
    text_facts::lemma_part_grows(l2, s2, l3);
    text_facts::lemma_part_grows(l2, s3, l4);
    text_facts::lemma_part_grows(l2, s4, l5);
    text_facts::lemma_part_grows(l2, s5, l6);
    text_facts::lemma_part_grows(l3, s3, l4);
    text_facts::lemma_part_grows(l3, s4, l5);
    text_facts::lemma_part_grows(l3, s5, l6);
    text_facts::lemma_part_grows(l4, s4, l5);
    text_facts::lemma_part_grows(l4, s5, l6);
    text_facts::lemma_part_grows(l5, s5, l6);
    if c.models.len() > 0 {
        let h = "\nRegistered models:\n"@;
        let e = entries_text(c.models);
        text_facts::lemma_part_end(s5 + h, e);
        assert(s =~= (s5 + h) + e);
    }
}

/// Every registered model is listed with its name, its window, its repository and its file.
pub proof fn law_every_model_is_listed(ms: Seq<ModelEntryView>, i: int)
    requires
        0 <= i < ms.len(),
    ensures
        text_facts::part_of(
            "  "@ + ms[i].name + " ("@ + text::decimal(ms[i].context_window as nat)
                + " ctx tokens)\n    repo: "@ + ms[i].hf_repo + "\n"@ + (if ms[i].hf_file.len() > 0 {
                "    file: "@ + ms[i].hf_file + "\n"@
            } else {
                Seq::empty()
            }),
            entries_text(ms),
        ),
    decreases ms.len(),
{
    let t = "  "@ + ms[i].name + " ("@ + text::decimal(ms[i].context_window as nat)
        + " ctx tokens)\n    repo: "@ + ms[i].hf_repo + "\n"@ + (if ms[i].hf_file.len() > 0 {
        "    file: "@ + ms[i].hf_file + "\n"@
    } else {
        Seq::empty()
    });
    let before = entries_text(ms.drop_last());
    if i == ms.len() - 1 {
        assert(ms.last() == ms[i]);
        assert(entries_text(ms) =~= before + t + Seq::<char>::empty());
        text_facts::lemma_part(before, t, Seq::empty());
    } else {
        assert(ms.drop_last()[i] == ms[i]);
        law_every_model_is_listed(ms.drop_last(), i);
        let e = Seq::<char>::empty();
        text_facts::lemma_part_of_part(t, before, e, entry_text(ms.last()));
        assert(entries_text(ms) =~= e + before + entry_text(ms.last()));
    }
}

/// A subcommand for models changes the list of models as it says and nothing else of the
/// configuration, and it is saved exactly if something changed.
pub proof fn law_model_commands(
    c: AxonConfigView,
    name: Seq<char>,
    repo: Seq<char>,
    file: Seq<char>,
    window: usize,
    other: Seq<char>,
)
    ensures
        ({
            let (d, r) = model_outcome(
                c,
                ModelActionView::Add { name, repo, file, context_window: window },
            );
            &&& config::registered(d.models, name) == Some(
                (ModelEntryView { name, hf_repo: repo, hf_file: file, context_window: window }),
            )
            &&& other != name ==> config::registered(d.models, other) == config::registered(
                c.models,
                other,
            )
            &&& d == (AxonConfigView { models: d.models, ..c })
            &&& r.save
        }),
        ({
            let (d, r) = model_outcome(c, ModelActionView::Remove { name });
            &&& config::registered(d.models, name) is None
            &&& other != name ==> config::registered(d.models, other) == config::registered(
                c.models,
                other,
            )
            &&& d == (AxonConfigView { models: d.models, ..c })
            &&& r.save <==> d.models.len() < c.models.len()
        }),
        ({
            let (d, r) = model_outcome(c, ModelActionView::List);
            d == c && !r.save
        }),
{
    let m = ModelEntryView { name, hf_repo: repo, hf_file: file, context_window: window };
    law_registered_model_is_found(c.models, m, other);
    law_removed_model_is_gone(c.models, name, other);
}

/// A subcommand for the configuration sets what it says, shows the value that there is, and
/// saves exactly if it set something.
pub proof fn law_config_commands(
    c: AxonConfigView,
    key: Seq<char>,
    value: Seq<char>,
    path: Seq<char>,
)
    ensures
        config_outcome(c, ConfigActionView::SetValue { key, value }, path) is Ok
            <==> config::with_value(c, key, value) is Ok,
        config_outcome(c, ConfigActionView::SetValue { key, value }, path) matches Ok((d, r))
            ==> r.save && config::with_value(c, key, value) == Ok::<_, Seq<char>>(d) && r.text
            == "Set "@ + key + " = "@ + value + "\n"@,
        config_outcome(c, ConfigActionView::Get { key }, path) matches Ok((d, r)) ==> d == c
            && !r.save && (config_value(c, key) matches Ok(v) && r.text == v + "\n"@),
        config_outcome(c, ConfigActionView::List, path) matches Ok((d, r)) && d == c && !r.save
            && r.text == config_text(path, c),
        key == "model"@ && c.model is Some ==> config_value(c, key) == Ok::<_, Seq<char>>(
            c.model->0,
        ),
{
}

/// The status says what the daemon does: nothing, dead, loading, unreachable or at work, with
/// its process, its port, its model and its log.
pub proof fn law_status_tells(
    pid: u32,
    port: u16,
    reachable: bool,
    model: Seq<char>,
    log: Seq<char>,
)
    ensures
        ({
            let up = status_text(Some(pid), true, Some(port), reachable, model, log);
            let loading = status_text(Some(pid), true, None, reachable, model, log);
            &&& up == "daemon:  running  (pid "@ + text::decimal(pid as nat) + ")\n"@ + ("port:    "@
                + text::decimal(port as nat) + "\n"@) + "model:   "@ + text::trimmed(model)
                + "\nstatus:  "@ + (if reachable {
                "accepting connections"@
            } else {
                "not responding"@
            }) + "\nlog:     "@ + log + "\n"@
            &&& loading == "daemon:  running  (pid "@ + text::decimal(pid as nat) + ")\n"@
                + "port:    (not yet bound — model loading)\n"@ + "model:   "@ + text::trimmed(model)
                + "\nstatus:  "@ + "loading model…"@ + "\nlog:     "@ + log + "\n"@
            &&& status_text(None, true, Some(port), reachable, model, log)
                == "daemon:  not running\n"@
            &&& status_text(Some(pid), false, Some(port), reachable, model, log)
                == "daemon:  dead (stale pid file — run `axon stop` to clean up)\n"@
        }),
{
}

} // verus!
