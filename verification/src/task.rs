//! Running a program to completion under the supervisor: how a run ended,
//! which of its output lines narrate progress, and what the watcher does on
//! each poll. The polling itself, the sleeps and the supervisor calls are the
//! caller's.

use vstd::prelude::*;

use vstd::string::StringSliceAdditionalSpecFns;
use vstd::utf8::encode_utf8;

use crate::buildtools::{is_step, is_step_spec};

verus! {

/// The longest line, in bytes, that is shown as progress.
pub const MAX_DETAIL: usize = 160;

/// How many of the newest log lines are searched for narration.
pub const NARRATION_WINDOW: usize = 400;

/// A narrator that shows nothing: every line stays in the log.
pub fn silent(line: &str) -> (r: bool)
    ensures
        !r,
{
    false
}

/// Which lines of a run are shown as progress.
#[derive(Debug, Clone, Copy, PartialEq, Eq, Structural)]
pub enum Narrator {
    /// None of them.
    Silent,
    /// BuildTools' own steps.
    BuildSteps,
}

impl Narrator {
    /// Whether `line` is narration under this narrator.
    pub open spec fn narrates_spec(self, line: Seq<char>) -> bool {
        match self {
            Narrator::Silent => false,
            Narrator::BuildSteps => is_step_spec(line),
        }
    }

    /// Whether `line` is narration under this narrator.
    pub fn narrates(self, line: &str) -> (r: bool)
        ensures
            r == self.narrates_spec(line@),
    {
        match self {
            Narrator::Silent => silent(line),
            Narrator::BuildSteps => is_step(line),
        }
    }
}

/// The byte length `str::len` reports for a line.
pub open spec fn byte_count(line: Seq<char>) -> usize {
    encode_utf8(line).len() as usize
}

/// Whether a log line may be shown: short enough and narrated.
pub open spec fn shown(narrator: Narrator, line: Seq<char>) -> bool {
    byte_count(line) <= 160 && narrator.narrates_spec(line)
}

/// The newest line (lines come oldest first) that may be shown, if any.
pub fn last_narrated(lines: &Vec<String>, narrator: Narrator) -> (r: Option<String>)
    ensures
        r is None ==> forall|i: int| 0 <= i < lines@.len() ==> !shown(narrator, #[trigger] lines@[i]@),
        r matches Some(l) ==> exists|i: int|
            0 <= i < lines@.len() && l@ == lines@[i]@ && shown(narrator, lines@[i]@) && (forall|
                j: int,
            |
                i < j < lines@.len() ==> !shown(narrator, #[trigger] lines@[j]@)),
{
    let mut k: usize = lines.len();
    while k > 0
        invariant
            k <= lines@.len(),
            forall|j: int| k <= j < lines@.len() ==> !shown(narrator, #[trigger] lines@[j]@),
        decreases k,
    {
        let line = lines[k - 1].as_str();
        if line.len() <= MAX_DETAIL && narrator.narrates(line) {
            let found = lines[k - 1].clone();
            assert(line@ == lines@[k - 1]@);
            assert(found@ == lines@[k - 1]@);
            return Some(found);
        }
        k -= 1;
    }
    None
}

/// How a task ended, for the callers that read a result off disk rather than
/// off the exit code.
#[derive(Debug, Clone, Copy, PartialEq, Eq, Structural)]
pub enum Outcome {
    Exited(Option<i32>),
    TimedOut,
}

impl Outcome {
    /// Whether the program exited by itself with status zero.
    pub fn succeeded(&self) -> (r: bool)
        ensures
            r <==> *self == Outcome::Exited(Some(0)),
    {
        match self {
            Outcome::Exited(Some(code)) => *code == 0,
            _ => false,
        }
    }
}

/// The state the supervisor reports for a run.
#[derive(Debug, Clone, Copy, PartialEq, Eq, Structural)]
pub enum RunState {
    Running,
    Killed,
    Exited,
}

/// Whether a task has to be started, given what the supervisor knows of its
/// id: a run with the same id that is still going is joined instead.
pub fn needs_start(status: Option<RunState>) -> (r: bool)
    ensures
        r <==> status != Some(RunState::Running),
{
    match status {
        Some(RunState::Running) => false,
        _ => true,
    }
}

/// What the watcher does after one look at a run.
#[derive(Debug, Clone, Copy, PartialEq, Eq, Structural)]
pub enum WatchStep {
    /// The job was cancelled: stop the run and give up.
    Cancel,
    /// The deadline passed: stop the run; it timed out.
    TimeOut,
    /// The supervisor no longer knows the run.
    Vanished,
    /// The run was stopped from outside.
    Stopped,
    /// The run ended by itself.
    Finished(Outcome),
    /// Still running: report and poll again.
    Continue,
}

/// The watcher's decision on one poll: cancellation first, then the deadline,
/// then what the supervisor says of the run.
pub fn watch_step(
    cancelled: bool,
    deadline_passed: bool,
    status: Option<RunState>,
    exit_code: Option<i32>,
) -> (r: WatchStep)
    ensures
        cancelled ==> r == WatchStep::Cancel,
        !cancelled && deadline_passed ==> r == WatchStep::TimeOut,
        !cancelled && !deadline_passed ==> r == match status {
            None => WatchStep::Vanished,
            Some(RunState::Killed) => WatchStep::Stopped,
            Some(RunState::Exited) => WatchStep::Finished(Outcome::Exited(exit_code)),
            Some(RunState::Running) => WatchStep::Continue,
        },
{
    if cancelled {
        return WatchStep::Cancel;
    }
    if deadline_passed {
        return WatchStep::TimeOut;
    }
    match status {
        None => WatchStep::Vanished,
        Some(RunState::Killed) => WatchStep::Stopped,
        Some(RunState::Exited) => WatchStep::Finished(Outcome::Exited(exit_code)),
        Some(RunState::Running) => WatchStep::Continue,
    }
}

/// The progress line after a report tick: the newest narrated step when
/// there is one, else the last one shown; `None` while nothing was ever
/// narrated (no report is sent then).
pub fn narration_after(current: Option<String>, newest: Option<String>) -> (r: Option<String>)
    ensures
        r == match newest {
            Some(n) => Some(n),
            None => current,
        },
{
    match newest {
        Some(n) => Some(n),
        None => current,
    }
}

} // verus!
