//! Launched processes: their status, their captured output, and the
//! decisions taken while a child runs and when its events come back.

use vstd::prelude::*;
use vstd::string::*;
use vstd::std_specs::cmp::PartialEqSpecImpl;
use crate::config::App;
use crate::text::{signed_decimal, signed_decimal_string};
use crate::trusted::{is_v4_id, random_id, send_kill};

verus! {

/// The most lines of output kept for one process.
pub const LOG_LIMIT: usize = 1000;

/// How many of the oldest lines are dropped when the limit is passed.
pub const LOG_DROP: usize = 100;

/// What the watcher of a child reports.
#[derive(Debug, Clone)]
pub enum ProcessEvent {
    Line { instance_id: u128, text: String },
    Exited { instance_id: u128, code: i32 },
    Failed { app_id: u128, reason: String },
}

/// Where a launched process stands.
#[derive(Debug, Clone, PartialEq, Eq, Structural)]
pub enum ProcessStatus {
    Running,
    Exited(i32),
    Killed,
}

/// A launched instance of an app.
#[derive(Debug)]
pub struct RunningProcess {
    pub instance_id: u128,
    pub app_id: u128,
    pub name: String,
    pub status: ProcessStatus,
    pub logs: Vec<String>,
    /// The channel through which the watcher of the child is asked to kill it.
    pub killer: tokio::sync::mpsc::Sender<()>,
}

/// What the watcher of a running child observes next.
#[derive(Debug)]
pub enum ChildSignal {
    /// A kill was asked for.
    KillRequested,
    /// The next line of standard output; `None` at its end or on a read error.
    Stdout(Option<String>),
    /// The next line of standard error; `None` at its end or on a read error.
    Stderr(Option<String>),
    /// The child ended, with its exit code where one was obtained.
    Exited(Option<i32>),
}

/// The status a process gets from an exit code; `-1` stands for a kill.
pub open spec fn status_for_exit(code: i32) -> ProcessStatus {
    if code == -1 {
        ProcessStatus::Killed
    } else {
        ProcessStatus::Exited(code)
    }
}

/// The instance ids of a sequence of processes.
pub open spec fn instance_ids(ps: Seq<RunningProcess>) -> Seq<u128> {
    ps.map_values(|p: RunningProcess| p.instance_id)
}

/// The log after `text` is appended: past the limit, the oldest lines are dropped.
pub open spec fn appended_log(logs: Seq<String>, text: String) -> Seq<String> {
    let l = logs.push(text);
    if l.len() > LOG_LIMIT {
        l.subrange(LOG_DROP as int, l.len() as int)
    } else {
        l
    }
}

/// Whether `q` is `p` but for its log.
pub open spec fn same_but_logs(p: RunningProcess, q: RunningProcess) -> bool {
    q == RunningProcess { logs: q.logs, ..p }
}

/// Whether `q` is `p` but for its status.
pub open spec fn same_but_status(p: RunningProcess, q: RunningProcess) -> bool {
    q == RunningProcess { status: q.status, ..p }
}

/// The text of the line that closes the output of a process that ended.
pub open spec fn exit_line_of(status: ProcessStatus) -> Option<Seq<char>> {
    match status {
        ProcessStatus::Exited(code) => Some("[exited with code "@ + signed_decimal(code as int) + "]"@),
        ProcessStatus::Killed => Some("[killed]"@),
        ProcessStatus::Running => None,
    }
}

impl ProcessStatus {
    /// The line shown after the output of a process that ended.
    pub fn exit_line(&self) -> (r: Option<String>)
        ensures
            match r {
                Some(s) => exit_line_of(*self) == Some(s@),
                None => exit_line_of(*self) is None,
            },
    {
        match self {
            ProcessStatus::Exited(code) => {
                let mut s = String::from_str("[exited with code ");
                s.append(signed_decimal_string(*code).as_str());
                s.append("]");
                Some(s)
            },
            ProcessStatus::Killed => Some(String::from_str("[killed]")),
            ProcessStatus::Running => None,
        }
    }
}

impl RunningProcess {
    /// A process just launched for `app`: a fresh instance id, running, no
    /// output yet, killed through `killer`.
    pub fn launched(app: &App, killer: tokio::sync::mpsc::Sender<()>) -> (p: RunningProcess)
        ensures
            is_v4_id(p.instance_id),
            p.app_id == app.id,
            p.name == app.name,
            p.status == ProcessStatus::Running,
            p.logs@.len() == 0,
            p.killer == killer,
    {
        RunningProcess {
            instance_id: random_id(),
            app_id: app.id,
            name: app.name.clone(),
            status: ProcessStatus::Running,
            logs: Vec::new(),
            killer,
        }
    }

    /// Asks the watcher of the child to kill it. Nothing changes here: the
    /// status changes when the watcher reports the exit.
    pub fn kill(&self) {
        send_kill(&self.killer);
    }

    /// Whether the process still runs.
    pub fn is_running(&self) -> (r: bool)
        ensures
            r == (self.status == ProcessStatus::Running),
    {
        self.status == ProcessStatus::Running
    }
}

impl PartialEq for RunningProcess {
    /// Two processes are the same when they are the same launch.
    fn eq(&self, other: &Self) -> (r: bool) {
        self.instance_id == other.instance_id
    }
}

impl PartialEqSpecImpl for RunningProcess {
    open spec fn obeys_eq_spec() -> bool {
        true
    }

    open spec fn eq_spec(&self, other: &RunningProcess) -> bool {
        self.instance_id == other.instance_id
    }
}


/// The line reported for a line `text` that the child wrote to standard error.
pub open spec fn stderr_line(text: Seq<char>) -> Seq<char> {
    "[err] "@ + text
}

/// What the watcher of the child `instance_id` does on `signal`: the event it
/// reports, if any, and whether it stops watching. A kill is reported as an
/// exit with code `-1`; an exit without a code likewise; lines are reported
/// as they come, those from standard error marked; the end of a stream or a
/// read error reports nothing and the watcher goes on.
pub fn watch_step(instance_id: u128, signal: ChildSignal) -> (r: (Option<ProcessEvent>, bool))
    ensures
        match signal {
            ChildSignal::KillRequested => {
                &&& r.0 == Some(ProcessEvent::Exited { instance_id, code: -1i32 })
                &&& r.1
            },
            ChildSignal::Stdout(line) => {
                &&& match line {
                    Some(text) => r.0 == Some(ProcessEvent::Line { instance_id, text }),
                    None => r.0 is None,
                }
                &&& !r.1
            },
            ChildSignal::Stderr(line) => {
                &&& match line {
                    Some(text) => r.0 matches Some(ProcessEvent::Line { instance_id: id, text: t })
                        && id == instance_id && t@ == stderr_line(text@),
                    None => r.0 is None,
                }
                &&& !r.1
            },
            ChildSignal::Exited(code) => {
                &&& r.0 == Some(
                    ProcessEvent::Exited {
                        instance_id,
                        code: match code {
                            Some(c) => c,
                            None => -1i32,
                        },
                    },
                )
                &&& r.1
            },
        },
{
    match signal {
        ChildSignal::KillRequested => (Some(ProcessEvent::Exited { instance_id, code: -1 }), true),
        ChildSignal::Stdout(line) => match line {
            Some(text) => (Some(ProcessEvent::Line { instance_id, text }), false),
            None => (None, false),
        },
        ChildSignal::Stderr(line) => match line {
            Some(text) => {
                let mut t = String::from_str("[err] ");
                t.append(text.as_str());
                (Some(ProcessEvent::Line { instance_id, text: t }), false)
            },
            None => (None, false),
        },
        ChildSignal::Exited(code) => {
            let code = match code {
                Some(c) => c,
                None => -1,
            };
            (Some(ProcessEvent::Exited { instance_id, code }), true)
        },
    }
}

/// Law: a log that keeps to the limit still keeps to it after a line is
/// appended; the new line is the last one, and what is kept is the most
/// recent part of the log with the new line.
pub proof fn log_stays_within_limit(logs: Seq<String>, text: String)
    requires
        logs.len() <= LOG_LIMIT,
    ensures
        appended_log(logs, text).len() <= LOG_LIMIT,
        appended_log(logs, text).last() == text,
        appended_log(logs, text) == logs.push(text).subrange(
            logs.push(text).len() - appended_log(logs, text).len(),
            logs.push(text).len() as int,
        ),
{
    assert(logs.push(text) =~= logs.push(text).subrange(0, logs.push(text).len() as int));
}


/// Law: every line reported from standard error begins with the `[err]`
/// mark by which the log panel sets such lines apart.
pub proof fn stderr_lines_are_marked(text: Seq<char>)
    ensures
        "[err]"@.len() <= stderr_line(text).len(),
        stderr_line(text).subrange(0, "[err]"@.len() as int) == "[err]"@,
{
    reveal_strlit("[err]");
    reveal_strlit("[err] ");
    assert(stderr_line(text).subrange(0, 5) =~= "[err]"@);
}

/// Law: an exit code of `-1` marks a kill; every other code is recorded as
/// the code the process exited with.
pub proof fn exits_record_their_code(code: i32)
    ensures
        code == -1 ==> status_for_exit(code) == ProcessStatus::Killed,
        code != -1 ==> status_for_exit(code) == ProcessStatus::Exited(code),
{
}

/// Law: a line from standard error is reported whole, behind the six
/// characters `[err] `.
pub proof fn stderr_lines_keep_their_text(text: Seq<char>)
    ensures
        stderr_line(text).len() == text.len() + 6,
        stderr_line(text).take(6) == seq!['[', 'e', 'r', 'r', ']', ' '],
        stderr_line(text).skip(6) == text,
{
    reveal_strlit("[err] ");
    assert(stderr_line(text).take(6) =~= seq!['[', 'e', 'r', 'r', ']', ' ']);
    assert(stderr_line(text).skip(6) =~= text);
}

/// Law: while a log holds fewer than 1000 lines, appending keeps every line
/// and adds the new one at the end; at 1000 lines, the oldest 100 go.
pub proof fn short_logs_keep_every_line(logs: Seq<String>, text: String)
    ensures
        logs.len() < 1000 ==> appended_log(logs, text) == logs.push(text),
        logs.len() == 1000 ==> appended_log(logs, text) == logs.push(text).skip(100),
{
    assert(logs.push(text).subrange(100, logs.push(text).len() as int) =~= logs.push(text).skip(100));
}

} // verus!
