//! The swarm's own tools: what they are given and what they answer.

use crate::text;
use crate::tools::shell;
use crate::tools::web;
use vstd::prelude::*;

verus! {

/// A request of an agent for another one.
pub struct SpawnCmd {
    pub def_id: String,
    pub task: String,
}

/// What a new task is made of.
pub struct AddTaskArgs {
    pub title: String,
    pub description: String,
    pub tags: String,
    pub body: String,
}

/// Adds a task to the queue.
pub struct AddTaskTool {}

impl AddTaskTool {
    /// A task must have a title.
    pub fn check(&self, args: &AddTaskArgs) -> (r: Result<(), String>)
        ensures
            r is Ok <==> !text::blank(args.title@),
            r matches Err(e) ==> e@ == "title must not be empty"@,
    {
        if text::is_blank(args.title.as_str()) {
            Err("title must not be empty".to_string())
        } else {
            Ok(())
        }
    }

    /// The answer once the task is in the queue.
    pub fn answer(&self, id: &str) -> (r: String)
        ensures
            r@ == "added task `"@ + id@ + "`"@,
    {
        let mut out = "added task `".to_string();
        out.append(id);
        out.append("`");
        out
    }
}

/// Which agent to spawn, and for what.
pub struct SpawnAgentArgs {
    pub def_id: String,
    pub task: String,
}

/// Spawns another agent.
pub struct SpawnAgentTool {}

impl SpawnAgentTool {
    /// The request to the swarm; there must be a task.
    pub fn request(&self, args: SpawnAgentArgs) -> (r: Result<SpawnCmd, String>)
        ensures
            match r {
                Ok(cmd) => !text::blank(args.task@) && cmd.def_id == args.def_id && cmd.task
                    == args.task,
                Err(e) => text::blank(args.task@) && e@ == "task must not be empty"@,
            },
    {
        if text::is_blank(args.task.as_str()) {
            Err("task must not be empty".to_string())
        } else {
            Ok(SpawnCmd { def_id: args.def_id, task: args.task })
        }
    }

    /// The answer once the request is queued.
    pub fn answer(&self, def_id: &str) -> (r: String)
        ensures
            r@ == "requested spawn of agent `"@ + def_id@ + "`"@,
    {
        let mut out = "requested spawn of agent `".to_string();
        out.append(def_id);
        out.append("`");
        out
    }
}

/// The shell command to run.
pub struct RunCommandArgs {
    pub cmd: String,
}

/// Runs a shell command.
pub struct RunCommandTool {}

impl RunCommandTool {
    /// The answer of a finished command, with its failure as a message.
    pub fn answer(&self, stdout: &str, stderr: &str, success: bool, code: Option<i32>) -> (r: Result<
        String,
        String,
    >)
        ensures
            match shell::command_answer(stdout@, stderr@, success, code) {
                Ok(t) => r matches Ok(s) && s@ == t,
                Err(e) => r matches Err(m) && m@ == crate::tools::error::error_text(e),
            },
    {
        match shell::command_report(stdout, stderr, success, code) {
            Ok(s) => Ok(s),
            Err(e) => Err(e.message()),
        }
    }
}

/// What to search for.
pub struct WebSearchArgs {
    pub query: String,
}

/// Searches the web.
pub struct WebSearchTool {}

impl WebSearchTool {
    /// The address to fetch.
    pub fn url(&self, args: &WebSearchArgs) -> (r: String)
        ensures
            r@ == web::search_address(args.query@),
    {
        web::search_url(args.query.as_str())
    }

    /// The answer for the page that was fetched.
    pub fn answer(&self, args: &WebSearchArgs, page: &str) -> (r: String)
        ensures
            r@ == web::search_answer(args.query@, page@),
    {
        web::search_report(args.query.as_str(), page)
    }
}

} // verus!
