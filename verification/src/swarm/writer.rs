//! Having a definition written by a model.

use vstd::prelude::*;

verus! {

/// How the model is told to write a definition.
pub const GENERATE_PROMPT: &'static str = "You are an expert at designing AI agent configurations for the Axon swarm system.
Output raw markdown only. Do NOT wrap the output in any JSON, envelope, or structured format.
Use this exact format, starting with --- and ending with the markdown body:

---
name: <agent-name>
model:  # leave empty to use default
tools:
  - write_file
  - add_task
  # - run_command
  # - web_search
policy: auto_approve
memory_window: 20
max_turns: 10
schedule_mins: 15
task:
task_hint:
---

# Agent instructions

<what this agent does>

When done, call add_task(title=<name>, body=<markdown>) to submit your work for human review (body must be markdown).

Based on the user's description, generate a complete agent definition. Choose appropriate tools, policy, and write clear instructions. If relevant, include schedule_mins and task. Output raw markdown only — no JSON, no commentary.";

/// The prompt for a definition that the user describes. What the model replies is taken
/// out of its envelope by `strip_json_envelope`.
pub fn generate_prompt(user_prompt: &str) -> (r: String)
    ensures
        r@ == GENERATE_PROMPT@ + "\n\nUser request: "@ + user_prompt@,
{
    let mut out = GENERATE_PROMPT.to_string();
    out.append("\n\nUser request: ");
    out.append(user_prompt);
    out
}

} // verus!
