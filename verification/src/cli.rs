//! The command line: what it can say, and what follows from it and the configuration.

use crate::config::{AxonConfig, AxonConfigView};
use crate::text;
use vstd::prelude::*;

verus! {

/// A subcommand.
pub enum Command {
    /// Stop the running daemon and free the model from memory.
    Stop,
    /// Show the status of the running daemon.
    Status,
    /// Manage the configuration.
    Config(ConfigCmd),
    /// Manage registered models.
    Model(ModelCmd),
    /// Run a workflow.
    Workflow(WorkflowCmd),
    /// Run the dashboard of the agent swarm.
    Serve(ServeCmd),
}

/// How the dashboard is served.
pub struct ServeCmd {
    pub host: String,
    pub port: u16,
    pub max_concurrency: usize,
    pub no_research_agent: bool,
    pub research_interval: u64,
    pub max_implement_attempts: usize,
}

impl Default for ServeCmd {
    fn default() -> (r: Self)
        ensures
            r.host@ == "127.0.0.1"@,
            r.port == 8420,
            r.max_concurrency == 1,
            !r.no_research_agent,
            r.research_interval == 300,
            r.max_implement_attempts == 5,
    {
        ServeCmd {
            host: "127.0.0.1".to_string(),
            port: 8420,
            max_concurrency: 1,
            no_research_agent: false,
            research_interval: 300,
            max_implement_attempts: 5,
        }
    }
}

pub struct WorkflowCmd {
    pub action: WorkflowAction,
}

pub enum WorkflowAction {
    /// Compile a workflow file and run it, or only show its plan.
    Run { file: String, compile_only: bool },
}

pub struct ConfigCmd {
    pub action: ConfigAction,
}

pub enum ConfigAction {
    SetValue { key: String, value: String },
    Get { key: String },
    List,
}

pub struct ModelCmd {
    pub action: ModelAction,
}

pub enum ModelAction {
    /// Register a model under a name.
    Add { name: String, repo: String, file: String, context_window: usize },
    Remove { name: String },
    List,
}

/// Where a model runs.
#[derive(Clone, Copy, Debug, PartialEq, Eq, Structural)]
pub enum BackendKind {
    Local,
    Ollama,
}

/// The command line.
pub struct Args {
    pub command: Option<Command>,
    /// A prompt to answer without a conversation.
    pub prompt: Option<String>,
    /// The model; goes before the configuration.
    pub model: Option<String>,
    /// The backend; goes before the configuration.
    pub backend: Option<BackendKind>,
    /// Run as the daemon.
    pub daemon: bool,
    /// The address of Ollama; goes before the configuration.
    pub ollama_url: Option<String>,
    /// Never download a model.
    pub no_download: bool,
    /// The size of the context window in tokens.
    pub context_window: Option<usize>,
    /// A skill by its name or by its address.
    pub skill: Option<String>,
}

/// The model where neither the command line nor the configuration names one.
pub open spec fn default_model(os: Seq<char>) -> Seq<char> {
    if os == "macos"@ {
        "qwen3.5:4b-mlx"@
    } else {
        "qwen3.5:2b"@
    }
}

/// The first of two that there is.
pub open spec fn first_given(
    a: Option<Seq<char>>,
    b: Option<Seq<char>>,
    otherwise: Seq<char>,
) -> Seq<char> {
    match a {
        Some(x) => x,
        None => match b {
            Some(y) => y,
            None => otherwise,
        },
    }
}

fn pick(a: &Option<String>, b: &Option<String>, otherwise: &str) -> (r: String)
    ensures
        r@ == first_given(text::option_view(*a), text::option_view(*b), otherwise@),
{
    match a {
        Some(x) => x.clone(),
        None => match b {
            Some(y) => y.clone(),
            None => otherwise.to_string(),
        },
    }
}

/// What is in force for a session.
pub struct Settings {
    pub model: String,
    pub backend: BackendKind,
    pub ollama_url: String,
    pub no_download: bool,
}

/// The backend that is in force: the command line's, else the configuration's, else the
/// local one.
pub open spec fn backend_in_force(
    given: Option<BackendKind>,
    configured: Option<Seq<char>>,
) -> BackendKind {
    match given {
        Some(b) => b,
        None => if configured == Some("ollama"@) {
            BackendKind::Ollama
        } else {
            BackendKind::Local
        },
    }
}

/// What is in force for a session: the command line goes before the configuration, and
/// that before what the system `os` has by default.
pub fn resolve(args: &Args, config: &AxonConfig, os: &str) -> (r: Settings)
    ensures
        r.model@ == first_given(
            text::option_view(args.model),
            config@.model,
            default_model(os@),
        ),
        r.backend == backend_in_force(args.backend, config@.backend),
        r.ollama_url@ == first_given(
            text::option_view(args.ollama_url),
            config@.ollama_url,
            "http://localhost:11434"@,
        ),
        r.no_download == (args.no_download || config@.no_download == Some(true)),
{
    let fallback = if text::same(os, "macos") {
        "qwen3.5:4b-mlx"
    } else {
        "qwen3.5:2b"
    };
    let backend = match args.backend {
        Some(b) => b,
        None => match &config.backend {
            Some(name) => if text::same(name.as_str(), "ollama") {
                BackendKind::Ollama
            } else {
                BackendKind::Local
            },
            None => BackendKind::Local,
        },
    };
    let configured = match config.no_download {
        Some(b) => b,
        None => false,
    };
    Settings {
        model: pick(&args.model, &config.model, fallback),
        backend,
        ollama_url: pick(&args.ollama_url, &config.ollama_url, "http://localhost:11434"),
        no_download: args.no_download || configured,
    }
}

/// The context window of a session with an Ollama model, where one was given.
pub fn ollama_window(args: &Args, config: &AxonConfig) -> (r: Option<usize>)
    ensures
        r == match args.context_window {
            Some(n) => Some(n),
            None => config@.context_window,
        },
{
    match args.context_window {
        Some(n) => Some(n),
        None => config.context_window,
    }
}

/// What is given on the command line is in force, whatever the configuration says.
pub proof fn law_command_line_goes_first(
    given: Seq<char>,
    backend: BackendKind,
    config: AxonConfigView,
    otherwise: Seq<char>,
)
    ensures
        first_given(Some(given), config.model, otherwise) == given,
        first_given(Some(given), config.ollama_url, otherwise) == given,
        backend_in_force(Some(backend), config.backend) == backend,
{
}

/// What the command line leaves open the configuration decides, and what that leaves open too
/// has its default: the local backend, and the smaller model but on macOS.
pub proof fn law_configuration_goes_next(
    configured: Seq<char>,
    otherwise: Seq<char>,
    os: Seq<char>,
)
    ensures
        first_given(None, Some(configured), otherwise) == configured,
        first_given(None, None, otherwise) == otherwise,
        backend_in_force(None, Some("ollama"@)) == BackendKind::Ollama,
        configured != "ollama"@ ==> backend_in_force(None, Some(configured)) == BackendKind::Local,
        backend_in_force(None, None) == BackendKind::Local,
        os == "macos"@ ==> default_model(os) == "qwen3.5:4b-mlx"@,
        os != "macos"@ ==> default_model(os) == "qwen3.5:2b"@,
{
}

} // verus!
