//! Bringing the daemon up with the right model.

use crate::daemon::files;
use crate::text;
use vstd::prelude::*;

verus! {

/// How many seconds the daemon may take to come up.
pub const START_TIMEOUT_SECS: u64 = 600;

/// What is being waited for.
#[derive(Clone, Copy, Debug, PartialEq, Eq, Structural)]
pub enum Phase {
    /// Whether a daemon is up.
    Probe,
    /// The model file, before the daemon on `port` switches to it.
    SwitchDownload { port: u16 },
    /// The daemon on `port` to switch models.
    Switch { port: u16 },
    /// A daemon that does not know the protocol to go away.
    Invalidate,
    /// The model file, before a daemon is spawned.
    SpawnDownload,
    /// Whether a daemon is loading the model already.
    CheckLoading,
    /// A new daemon to be spawned.
    Spawn,
    /// The daemon to accept connections; the last second of which progress was shown.
    Poll { last_secs: Option<u64> },
    /// Nothing any more.
    Over,
}

/// What to do next.
pub enum Step {
    /// Read the port file, try to connect and read the model file.
    Probe,
    /// Fetch the model file unless it is there.
    Download,
    /// Ask the daemon on `port` to switch models.
    Switch { port: u16 },
    /// Stop the daemon and remove its files.
    Invalidate,
    /// See whether the process that the pid file names is alive.
    CheckLoading,
    /// Remove the port and pid files and spawn a daemon.
    Spawn,
    /// Show the progress, if any, and look again in half a second.
    Wait { progress: Option<Progress> },
    /// The daemon is up on `port`.
    Ready { port: u16 },
    /// The daemon died: remove its files and report the end of its log.
    Died,
    /// The daemon took too long: show the progress, stop it and give up.
    TimedOut { progress: Option<Progress> },
    /// Give up with the error.
    Fail(String),
}

/// A progress report.
pub enum Progress {
    /// Over the last report on a terminal.
    Rewrite(String),
    /// On a line of its own.
    Line(String),
}

/// What a [`Progress`] says.
pub enum ProgressView {
    Rewrite(Seq<char>),
    Line(Seq<char>),
}

impl View for Progress {
    type V = ProgressView;

    open spec fn view(&self) -> ProgressView {
        match self {
            Progress::Rewrite(t) => ProgressView::Rewrite(t@),
            Progress::Line(t) => ProgressView::Line(t@),
        }
    }
}

pub open spec fn progress_view(p: Option<Progress>) -> Option<ProgressView> {
    match p {
        Some(p) => Some(p@),
        None => None,
    }
}

/// What a [`Step`] says.
pub enum StepView {
    Probe,
    Download,
    Switch { port: u16 },
    Invalidate,
    CheckLoading,
    Spawn,
    Wait { progress: Option<ProgressView> },
    Ready { port: u16 },
    Died,
    TimedOut { progress: Option<ProgressView> },
    Fail(Seq<char>),
}

impl View for Step {
    type V = StepView;

    open spec fn view(&self) -> StepView {
        match self {
            Step::Probe => StepView::Probe,
            Step::Download => StepView::Download,
            Step::Switch { port } => StepView::Switch { port: *port },
            Step::Invalidate => StepView::Invalidate,
            Step::CheckLoading => StepView::CheckLoading,
            Step::Spawn => StepView::Spawn,
            Step::Wait { progress } => StepView::Wait { progress: progress_view(*progress) },
            Step::Ready { port } => StepView::Ready { port: *port },
            Step::Died => StepView::Died,
            Step::TimedOut { progress } => StepView::TimedOut {
                progress: progress_view(*progress),
            },
            Step::Fail(e) => StepView::Fail(e@),
        }
    }
}

/// What happened.
pub enum EventView {
    /// A daemon accepts connections on a port, or none does; and what the model file says.
    Probed { port: Option<u16>, running: Seq<char> },
    /// The download ended.
    Downloaded(Result<(), Seq<char>>),
    /// The daemon answered the switch request.
    Switched(Result<(), Seq<char>>),
    /// The old daemon was stopped.
    Invalidated(Result<(), Seq<char>>),
    /// The pid file names a process that is alive, or does not.
    LoadingChecked(bool),
    /// The new daemon was spawned.
    Spawned(Result<(), Seq<char>>),
    /// A daemon accepts connections on a port, or none does; whether the process is alive;
    /// the seconds since waiting began; whether progress goes to a terminal.
    Polled { port: Option<u16>, alive: bool, elapsed: u64, tty: bool },
}

/// How long a wait has taken, in minutes and seconds.
pub open spec fn duration(secs: nat) -> Seq<char> {
    if secs / 60 > 0 {
        text::decimal(secs / 60) + "m "@ + text::decimal(secs % 60) + "s"@
    } else {
        text::decimal(secs % 60) + "s"@
    }
}

/// The report for the second `elapsed`: each second on a terminal, elsewhere every
/// fifteen seconds.
pub open spec fn report(model: Seq<char>, last: Option<u64>, elapsed: u64, tty: bool) -> Option<
    ProgressView,
> {
    if last == Some(elapsed) {
        None
    } else if tty {
        Some(
            ProgressView::Rewrite(
                "\raxon: loading '"@ + model + "'… "@ + duration(elapsed as nat),
            ),
        )
    } else if elapsed > 0 && elapsed % 15 == 0 {
        Some(ProgressView::Line("axon: loading '"@ + model + "'… "@ + duration(elapsed as nat)))
    } else {
        None
    }
}

/// The step for the outcome of some work, where a failure ends everything.
pub open spec fn unless_failed(r: Result<(), Seq<char>>, phase: Phase, step: StepView) -> (
    Phase,
    StepView,
) {
    match r {
        Ok(_) => (phase, step),
        Err(e) => (Phase::Over, StepView::Fail(e)),
    }
}

/// What follows an event. One that is not waited for changes nothing.
pub open spec fn next(model: Seq<char>, phase: Phase, e: EventView) -> (Phase, StepView) {
    match (phase, e) {
        (Phase::Probe, EventView::Probed { port, running }) => match port {
            Some(port) => if text::trimmed(running) == model {
                (Phase::Over, StepView::Ready { port })
            } else {
                (Phase::SwitchDownload { port }, StepView::Download)
            },
            None => (Phase::SpawnDownload, StepView::Download),
        },
        (Phase::SwitchDownload { port }, EventView::Downloaded(r)) => unless_failed(
            r,
            Phase::Switch { port },
            StepView::Switch { port },
        ),
        (Phase::Switch { port }, EventView::Switched(r)) => match r {
            Ok(_) => (Phase::Over, StepView::Ready { port }),
            Err(m) => if text::holds(m, "invalid request JSON"@) {
                (Phase::Invalidate, StepView::Invalidate)
            } else {
                (Phase::Over, StepView::Fail(m))
            },
        },
        (Phase::Invalidate, EventView::Invalidated(r)) => unless_failed(
            r,
            Phase::SpawnDownload,
            StepView::Download,
        ),
        (Phase::SpawnDownload, EventView::Downloaded(r)) => unless_failed(
            r,
            Phase::CheckLoading,
            StepView::CheckLoading,
        ),
        (Phase::CheckLoading, EventView::LoadingChecked(alive)) => if alive {
            (Phase::Poll { last_secs: None }, StepView::Wait { progress: None })
        } else {
            (Phase::Spawn, StepView::Spawn)
        },
        (Phase::Spawn, EventView::Spawned(r)) => unless_failed(
            r,
            Phase::Poll { last_secs: None },
            StepView::Wait { progress: None },
        ),
        (Phase::Poll { last_secs }, EventView::Polled { port, alive, elapsed, tty }) => {
            let progress = report(model, last_secs, elapsed, tty);
            match port {
                Some(port) => (Phase::Over, StepView::Ready { port }),
                None => if !alive {
                    (Phase::Over, StepView::Died)
                } else if elapsed >= START_TIMEOUT_SECS {
                    (Phase::Over, StepView::TimedOut { progress })
                } else {
                    (Phase::Poll { last_secs: Some(elapsed) }, StepView::Wait { progress })
                },
            }
        },
        _ => (phase, StepView::Fail("unexpected event"@)),
    }
}

/// Brings the daemon up step by step. Each method takes what happened and says what to
/// do next.
pub struct Starter {
    pub model: String,
    pub phase: Phase,
}

pub open spec fn result_view(r: Result<(), String>) -> Result<(), Seq<char>> {
    match r {
        Ok(_) => Ok(()),
        Err(e) => Err(e@),
    }
}

impl Starter {
    pub fn new(model: &str) -> (r: (Starter, Step))
        ensures
            r.0.model@ == model@,
            r.0.phase == Phase::Probe,
            r.1@ == StepView::Probe,
    {
        (Starter { model: model.to_string(), phase: Phase::Probe }, Step::Probe)
    }

    /// The event `e` leads from `before` to `self` with `step`.
    pub open spec fn stepped(&self, before: Starter, e: EventView, step: Step) -> bool {
        &&& self.model == before.model
        &&& (self.phase, step@) == next(before.model@, before.phase, e)
    }

    fn unless_failed(&mut self, r: Result<(), String>, phase: Phase, step: Step) -> (s: Step)
        ensures
            (final(self).phase, s@) == unless_failed(result_view(r), phase, step@),
            final(self).model == old(self).model,
    {
        match r {
            Ok(_) => {
                self.phase = phase;
                step
            },
            Err(e) => {
                self.phase = Phase::Over;
                Step::Fail(e)
            },
        }
    }

    /// A daemon accepts connections on `port`, or none does; `running` is what the model
    /// file says.
    pub fn probed(&mut self, port: Option<u16>, running: &str) -> (r: Step)
        ensures
            final(self).stepped(*old(self), EventView::Probed { port, running: running@ }, r),
    {
        match self.phase {
            Phase::Probe => match port {
                Some(port) => {
                    if text::same(text::trim(running), self.model.as_str()) {
                        self.phase = Phase::Over;
                        Step::Ready { port }
                    } else {
                        self.phase = Phase::SwitchDownload { port };
                        Step::Download
                    }
                },
                None => {
                    self.phase = Phase::SpawnDownload;
                    Step::Download
                },
            },
            _ => Step::Fail("unexpected event".to_string()),
        }
    }

    /// The download ended.
    pub fn downloaded(&mut self, outcome: Result<(), String>) -> (r: Step)
        ensures
            final(self).stepped(*old(self), EventView::Downloaded(result_view(outcome)), r),
    {
        match self.phase {
            Phase::SwitchDownload { port } => self.unless_failed(
                outcome,
                Phase::Switch { port },
                Step::Switch { port },
            ),
            Phase::SpawnDownload => self.unless_failed(
                outcome,
                Phase::CheckLoading,
                Step::CheckLoading,
            ),
            _ => Step::Fail("unexpected event".to_string()),
        }
    }

    /// The daemon answered the switch request. One that does not know the request is
    /// replaced.
    pub fn switched(&mut self, outcome: Result<(), String>) -> (r: Step)
        ensures
            final(self).stepped(*old(self), EventView::Switched(result_view(outcome)), r),
    {
        match self.phase {
            Phase::Switch { port } => match outcome {
                Ok(_) => {
                    self.phase = Phase::Over;
                    Step::Ready { port }
                },
                Err(m) => {
                    if text::contains(m.as_str(), "invalid request JSON") {
                        self.phase = Phase::Invalidate;
                        Step::Invalidate
                    } else {
                        self.phase = Phase::Over;
                        Step::Fail(m)
                    }
                },
            },
            _ => Step::Fail("unexpected event".to_string()),
        }
    }

    /// The old daemon was stopped.
    pub fn invalidated(&mut self, outcome: Result<(), String>) -> (r: Step)
        ensures
            final(self).stepped(*old(self), EventView::Invalidated(result_view(outcome)), r),
    {
        match self.phase {
            Phase::Invalidate => self.unless_failed(outcome, Phase::SpawnDownload, Step::Download),
            _ => Step::Fail("unexpected event".to_string()),
        }
    }

    /// The pid file names a process that is alive, or does not.
    pub fn loading_checked(&mut self, alive: bool) -> (r: Step)
        ensures
            final(self).stepped(*old(self), EventView::LoadingChecked(alive), r),
    {
        match self.phase {
            Phase::CheckLoading => {
                if alive {
                    self.phase = Phase::Poll { last_secs: None };
                    Step::Wait { progress: None }
                } else {
                    self.phase = Phase::Spawn;
                    Step::Spawn
                }
            },
            _ => Step::Fail("unexpected event".to_string()),
        }
    }

    /// The new daemon was spawned.
    pub fn spawned(&mut self, outcome: Result<(), String>) -> (r: Step)
        ensures
            final(self).stepped(*old(self), EventView::Spawned(result_view(outcome)), r),
    {
        match self.phase {
            Phase::Spawn => self.unless_failed(
                outcome,
                Phase::Poll { last_secs: None },
                Step::Wait { progress: None },
            ),
            _ => Step::Fail("unexpected event".to_string()),
        }
    }

    fn progress(&self, last: Option<u64>, elapsed: u64, tty: bool) -> (r: Option<Progress>)
        ensures
            progress_view(r) == report(self.model@, last, elapsed, tty),
    {
        let shown = match last {
            Some(l) => l == elapsed,
            None => false,
        };
        if shown {
            return None;
        }
        if tty {
            let mut t = "\raxon: loading '".to_string();
            t.append(self.model.as_str());
            t.append("'… ");
            t.append(format_duration(elapsed).as_str());
            Some(Progress::Rewrite(t))
        } else if elapsed > 0 && elapsed % 15 == 0 {
            let mut t = "axon: loading '".to_string();
            t.append(self.model.as_str());
            t.append("'… ");
            t.append(format_duration(elapsed).as_str());
            Some(Progress::Line(t))
        } else {
            None
        }
    }

    /// What a look at the files found, `elapsed` seconds after waiting began.
    pub fn polled(&mut self, port: Option<u16>, alive: bool, elapsed: u64, tty: bool) -> (r: Step)
        ensures
            final(self).stepped(*old(self), EventView::Polled { port, alive, elapsed, tty }, r),
    {
        match self.phase {
            Phase::Poll { last_secs } => {
                if let Some(port) = port {
                    self.phase = Phase::Over;
                    return Step::Ready { port };
                }
                if !alive {
                    self.phase = Phase::Over;
                    return Step::Died;
                }
                let progress = self.progress(last_secs, elapsed, tty);
                if elapsed >= START_TIMEOUT_SECS {
                    self.phase = Phase::Over;
                    Step::TimedOut { progress }
                } else {
                    self.phase = Phase::Poll { last_secs: Some(elapsed) };
                    Step::Wait { progress }
                }
            },
            _ => Step::Fail("unexpected event".to_string()),
        }
    }
}

/// How long a wait has taken, in minutes and seconds.
pub fn format_duration(secs: u64) -> (r: String)
    ensures
        r@ == duration(secs as nat),
{
    let m: u64 = secs / 60;
    let s: u64 = secs % 60;
    let mut out = String::new();
    if m > 0 {
        out.append(text::to_decimal(m).as_str());
        out.append("m ");
    }
    out.append(text::to_decimal(s).as_str());
    out.append("s");
    assert(out@ =~= duration(secs as nat));
    out
}

/// The message for a daemon that died, with the end of its log.
pub fn died_message(log: &str) -> (r: String)
    ensures
        r@ == "axon daemon exited unexpectedly:\n"@ + text::joined(
            files::last_lines(log@, 10),
            "\n"@,
        ),
{
    text::cat("axon daemon exited unexpectedly:\n", files::log_tail(log).as_str())
}

/// The message for a daemon that took too long.
pub fn timeout_message(log_file: &str) -> (r: String)
    ensures
        r@ == "axon daemon failed to start within 10 minutes — check "@ + log_file@,
{
    text::cat("axon daemon failed to start within 10 minutes — check ", log_file)
}

/// The command line of a new daemon.
pub open spec fn daemon_command(model: Seq<char>, no_download: bool, cw: Option<usize>) -> Seq<
    Seq<char>,
> {
    seq!["--daemon"@, "--model"@, model] + (if no_download {
        seq!["--no-download"@]
    } else {
        Seq::empty()
    }) + (match cw {
        Some(n) => seq!["--context-window"@, text::decimal(n as nat)],
        None => Seq::empty(),
    })
}

/// The command line of a new daemon.
pub fn daemon_args(model: &str, no_download: bool, cw: Option<usize>) -> (r: Vec<String>)
    ensures
        text::views(r@) == daemon_command(model@, no_download, cw),
{
    let mut args: Vec<String> = Vec::new();
    args.push("--daemon".to_string());
    args.push("--model".to_string());
    args.push(model.to_string());
    if no_download {
        args.push("--no-download".to_string());
    }
    if let Some(n) = cw {
        args.push("--context-window".to_string());
        args.push(text::to_decimal(n as u64).as_str().to_string());
    }
    assert(text::views(args@) =~= daemon_command(model@, no_download, cw));
    args
}

/// How many steps are left at most before waiting begins.
pub open spec fn rank(phase: Phase) -> nat {
    match phase {
        Phase::Probe => 7,
        Phase::SwitchDownload { .. } => 6,
        Phase::Switch { .. } => 5,
        Phase::Invalidate => 4,
        Phase::SpawnDownload => 3,
        Phase::CheckLoading => 2,
        Phase::Spawn => 1,
        Phase::Poll { .. } => 0,
        Phase::Over => 0,
    }
}

/// Before waiting begins every event that is waited for brings the end nearer: no step is
/// done twice.
pub proof fn law_steps_are_not_repeated(model: Seq<char>, phase: Phase, e: EventView)
    ensures
        ({
            let after = next(model, phase, e).0;
            after == phase || rank(after) < rank(phase) || phase is Poll
        }),
{
}

/// A daemon that is up with the right model is used as it is.
pub proof fn law_right_daemon_is_used(model: Seq<char>, port: u16, running: Seq<char>)
    requires
        text::trimmed(running) == model,
    ensures
        next(model, Phase::Probe, EventView::Probed { port: Some(port), running }) == (
            Phase::Over,
            StepView::Ready { port },
        ),
{
}

/// A daemon is spawned only after it was seen that none is loading the model already.
pub proof fn law_no_second_daemon(model: Seq<char>, phase: Phase, e: EventView)
    ensures
        next(model, phase, e).1 is Spawn ==> phase is CheckLoading && e
            == EventView::LoadingChecked(false),
{
}

/// Success is reported only with a port that accepted a connection, or on which the
/// daemon has switched to the model.
pub proof fn law_ready_is_reachable(model: Seq<char>, phase: Phase, e: EventView)
    ensures
        next(model, phase, e).1 matches StepView::Ready { port } ==> {
            ||| e matches EventView::Probed { port: p, .. } && p == Some(port)
            ||| e matches EventView::Polled { port: p, .. } && p == Some(port)
            ||| e matches EventView::Switched(r) && r is Ok && phase == (Phase::Switch { port })
        },
{
}

/// Waiting ends by itself: from the time limit on, every look at the files is the last.
pub proof fn law_waiting_ends(model: Seq<char>, last: Option<u64>, e: EventView)
    requires
        e matches EventView::Polled { elapsed, .. } && elapsed >= START_TIMEOUT_SECS,
    ensures
        next(model, (Phase::Poll { last_secs: last }), e).0 == Phase::Over,
{
}

/// Whatever work fails, the reason is reported whole and nothing further is tried; the one
/// exception is a daemon that does not know the request to switch, which is replaced.
pub proof fn law_failures_are_reported(model: Seq<char>, port: u16, e: Seq<char>)
    ensures
        next(model, Phase::SwitchDownload { port }, EventView::Downloaded(Err(e))) == (
            Phase::Over,
            StepView::Fail(e),
        ),
        next(model, Phase::SpawnDownload, EventView::Downloaded(Err(e))) == (
            Phase::Over,
            StepView::Fail(e),
        ),
        next(model, Phase::Invalidate, EventView::Invalidated(Err(e))) == (
            Phase::Over,
            StepView::Fail(e),
        ),
        next(model, Phase::Spawn, EventView::Spawned(Err(e))) == (Phase::Over, StepView::Fail(e)),
        (forall|j: int| !#[trigger] text::occurs_at(e, "invalid request JSON"@, j)) ==> next(
            model,
            Phase::Switch { port },
            EventView::Switched(Err(e)),
        ) == (Phase::Over, StepView::Fail(e)),
        (exists|j: int| 0 <= j && #[trigger] text::occurs_at(e, "invalid request JSON"@, j))
            ==> next(model, Phase::Switch { port }, EventView::Switched(Err(e))) == (
            Phase::Invalidate,
            StepView::Invalidate,
        ),
{
    crate::text_facts::lemma_find(e, "invalid request JSON"@, 0);
}

/// A daemon with another model gets the model file first and is then asked to switch, on the
/// port on which it was found; where that works it is ready on the same port.
pub proof fn law_other_model_is_switched(model: Seq<char>, port: u16, running: Seq<char>)
    requires
        text::trimmed(running) != model,
    ensures
        ({
            let found = next(model, Phase::Probe, EventView::Probed { port: Some(port), running });
            let fetched = next(model, found.0, EventView::Downloaded(Ok(())));
            let switched = next(model, fetched.0, EventView::Switched(Ok(())));
            &&& found.1 == StepView::Download
            &&& fetched.1 == StepView::Switch { port }
            &&& switched == (Phase::Over, StepView::Ready { port })
        }),
{
}

/// Without a daemon the model file is fetched, then one is spawned unless one is loading
/// already, and then it is waited for until it accepts connections.
pub proof fn law_missing_daemon_is_spawned(
    model: Seq<char>,
    running: Seq<char>,
    port: u16,
    alive: bool,
    elapsed: u64,
    tty: bool,
)
    ensures
        ({
            let found = next(model, Phase::Probe, EventView::Probed { port: None, running });
            let fetched = next(model, found.0, EventView::Downloaded(Ok(())));
            let loading = next(model, fetched.0, EventView::LoadingChecked(true));
            let idle = next(model, fetched.0, EventView::LoadingChecked(false));
            let spawned = next(model, idle.0, EventView::Spawned(Ok(())));
            let up = EventView::Polled { port: Some(port), alive, elapsed, tty };
            &&& found.1 == StepView::Download
            &&& fetched.1 == StepView::CheckLoading
            &&& idle.1 == StepView::Spawn
            &&& loading == spawned
            &&& spawned.1 == StepView::Wait { progress: None }
            &&& next(model, spawned.0, up) == (Phase::Over, StepView::Ready { port })
        }),
{
}

/// A daemon that is replaced is replaced from the start: the model file is fetched for a new one.
pub proof fn law_replaced_daemon_is_spawned(model: Seq<char>, running: Seq<char>)
    ensures
        next(model, Phase::Invalidate, EventView::Invalidated(Ok(()))) == next(
            model,
            Phase::Probe,
            EventView::Probed { port: None, running },
        ),
{
}

/// While a daemon that lives does not accept connections it is waited for, up to ten minutes;
/// one that died is not.
pub proof fn law_daemon_is_waited_for(
    model: Seq<char>,
    last: Option<u64>,
    elapsed: u64,
    tty: bool,
)
    ensures
        ({
            let phase = Phase::Poll { last_secs: last };
            let waiting = EventView::Polled { port: None, alive: true, elapsed, tty };
            let dead = EventView::Polled { port: None, alive: false, elapsed, tty };
            &&& next(model, phase, dead) == (Phase::Over, StepView::Died)
            &&& elapsed < 600 ==> next(model, phase, waiting).1 is Wait && next(
                model,
                phase,
                waiting,
            ).0 == Phase::Poll { last_secs: Some(elapsed) }
            &&& elapsed >= 600 ==> next(model, phase, waiting).1 is TimedOut && next(
                model,
                phase,
                waiting,
            ).0 == Phase::Over
        }),
{
}

/// The time that a report shows is the time that has passed, in minutes and seconds; it names
/// the model; and no second is reported twice.
pub proof fn law_progress(model: Seq<char>, last: Option<u64>, m: nat, s: nat)
    requires
        s < 60,
        m * 60 + s <= u64::MAX,
    ensures
        ({
            let elapsed = (m * 60 + s) as u64;
            let time = if m > 0 {
                text::decimal(m) + "m "@ + text::decimal(s) + "s"@
            } else {
                text::decimal(s) + "s"@
            };
            &&& duration((m * 60 + s) as nat) == time
            &&& report(model, Some(elapsed), elapsed, true) is None
            &&& report(model, Some(elapsed), elapsed, false) is None
            &&& last != Some(elapsed) ==> report(model, last, elapsed, true) == Some(
                ProgressView::Rewrite("\raxon: loading '"@ + model + "'… "@ + time),
            )
            &&& last != Some(elapsed) && elapsed > 0 && s % 15 == 0 ==> report(
                model,
                last,
                elapsed,
                false,
            ) == Some(ProgressView::Line("axon: loading '"@ + model + "'… "@ + time))
            &&& s % 15 != 0 ==> report(model, last, elapsed, false) is None
        }),
{
    let e = m * 60 + s;
    assert(e / 60 == m && e % 60 == s);
    assert(e % 15 == s % 15);
}

/// A daemon is spawned with the model that is wanted, with the window that was set, and without
/// downloads exactly where they are off.
pub proof fn law_daemon_is_spawned_as_wanted(model: Seq<char>, no_download: bool, n: usize)
    ensures
        ({
            let plain = daemon_command(model, no_download, None);
            let sized = daemon_command(model, no_download, Some(n));
            &&& plain[0] == "--daemon"@ && plain[1] == "--model"@ && plain[2] == model
            &&& no_download ==> plain.len() == 4 && plain[3] == "--no-download"@
            &&& !no_download ==> plain.len() == 3
            &&& sized == plain + seq!["--context-window"@, text::decimal(n as nat)]
        }),
{
    let plain = daemon_command(model, no_download, None);
    let sized = daemon_command(model, no_download, Some(n));
    assert(sized =~= plain + seq!["--context-window"@, text::decimal(n as nat)]);
}

} // verus!
