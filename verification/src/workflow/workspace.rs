//! The directory of a workflow's run.

use crate::paths;
use crate::text;
use vstd::prelude::*;

verus! {

/// The directory of a workflow's run.
pub struct WorkspaceManager {
    root: String,
}

/// The directory of a run that started at the second `ts`.
pub open spec fn run_dir(home: Seq<char>, workflow: Seq<char>, ts: nat) -> Seq<char> {
    paths::below(
        paths::below(paths::below(paths::below(home, ".axon"@), "workflows"@), workflow),
        text::decimal(ts),
    )
}

/// The file with the output of a step.
pub open spec fn output_file(root: Seq<char>, dir_name: Seq<char>) -> Seq<char> {
    paths::below(paths::below(root, dir_name), "output.txt"@)
}

impl View for WorkspaceManager {
    type V = Seq<char>;

    closed spec fn view(&self) -> Seq<char> {
        self.root@
    }
}

impl WorkspaceManager {
    /// The directory of a run of the workflow that starts at the second `ts`; there is none
    /// without a home.
    pub fn new(home: Option<&str>, workflow_name: &str, ts: u64) -> (r: Result<Self, String>)
        ensures
            match home {
                Some(h) => r matches Ok(w) && w@ == run_dir(h@, workflow_name@, ts as nat),
                None => r matches Err(e) && e@ == "cannot determine home directory"@,
            },
    {
        match home {
            Some(h) => {
                let base = paths::join(paths::join(h, ".axon").as_str(), "workflows");
                let named = paths::join(base.as_str(), workflow_name);
                let root = paths::join(named.as_str(), text::to_decimal(ts).as_str());
                Ok(WorkspaceManager { root })
            },
            None => Err("cannot determine home directory".to_string()),
        }
    }

    pub fn root(&self) -> (r: &str)
        ensures
            r@ == self@,
    {
        self.root.as_str()
    }

    /// The file with the plan.
    pub fn plan_path(&self) -> (r: String)
        ensures
            r@ == paths::below(self@, "plan.json"@),
    {
        paths::join(self.root.as_str(), "plan.json")
    }

    /// The directory of a step.
    pub fn step_dir(&self, dir_name: &str) -> (r: String)
        ensures
            r@ == paths::below(self@, dir_name@),
    {
        paths::join(self.root.as_str(), dir_name)
    }

    /// The file with the output of a step.
    pub fn output_path(&self, dir_name: &str) -> (r: String)
        ensures
            r@ == output_file(self@, dir_name@),
    {
        paths::join(paths::join(self.root.as_str(), dir_name).as_str(), "output.txt")
    }

    /// Whether a step has its output among the files that there are.
    pub fn output_exists(&self, dir_name: &str, files: &Vec<String>) -> (r: bool)
        ensures
            r == text::views(files@).contains(output_file(self@, dir_name@)),
    {
        text::list_contains(files, self.output_path(dir_name).as_str())
    }

    /// A file in the directory of a step.
    pub fn file_path(&self, dir_name: &str, file_name: &str) -> (r: String)
        ensures
            r@ == paths::below(paths::below(self@, dir_name@), file_name@),
    {
        paths::join(self.step_dir(dir_name).as_str(), file_name)
    }
}

/// The files of a run stand below the home, under the workflow and the time of the run, and
/// those of a step in the step's own directory.
pub proof fn law_files_of_a_run(
    home: Seq<char>,
    workflow: Seq<char>,
    ts: nat,
    step: Seq<char>,
)
    requires
        home.len() > 0 && home.last() != '/',
        workflow.len() > 0 && workflow[0] != '/' && workflow.last() != '/',
        step.len() > 0 && step[0] != '/' && step.last() != '/',
    ensures
        run_dir(home, workflow, ts) == home + "/.axon/workflows/"@ + workflow + "/"@
            + text::decimal(ts),
        output_file(run_dir(home, workflow, ts), step) == run_dir(home, workflow, ts) + "/"@ + step
            + "/output.txt"@,
{
    reveal_strlit(".axon");
    reveal_strlit("workflows");
    reveal_strlit("/.axon/workflows/");
    reveal_strlit("/");
    reveal_strlit("output.txt");
    reveal_strlit("/output.txt");
    let a = paths::below(home, ".axon"@);
    paths::law_below(home, ".axon"@);
    let b = paths::below(a, "workflows"@);
    paths::law_below(a, "workflows"@);
    assert(a.last() == 'n');
    assert(b.last() == 's');
    let c = paths::below(b, workflow);
    paths::law_below(b, workflow);
    assert(c.last() == workflow.last());
    let d = text::decimal(ts);
    crate::text_facts::lemma_decimal_digits(ts);
    assert(text::is_digit(d[0]) && text::is_digit(d[d.len() - 1]));
    paths::law_below(c, d);
    let r = run_dir(home, workflow, ts);
    assert(r =~= home + "/.axon/workflows/"@ + workflow + "/"@ + d);
    assert(r.last() == d.last());
    let e = paths::below(r, step);
    paths::law_below(r, step);
    assert(e.last() == step.last());
    paths::law_below(e, "output.txt"@);
    assert(output_file(r, step) =~= r + "/"@ + step + "/output.txt"@);
}

} // verus!
