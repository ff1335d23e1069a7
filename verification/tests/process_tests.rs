use project_butler::config::App;
use project_butler::view::log_line_class;
use project_butler::process::{ChildSignal, ProcessEvent, ProcessStatus, RunningProcess, watch_step};

fn app() -> App {
    App {
        id: 42,
        name: "Dev Server".to_string(),
        description: String::new(),
        icon: None,
        command: "npm".to_string(),
        args: vec![],
        env: vec![],
        cwd: None,
        confirm: false,
        icon_data: None,
    }
}

#[test]
fn a_launched_process_runs_with_empty_log() {
    let (tx, _rx) = tokio::sync::mpsc::channel::<()>(1);
    let p = RunningProcess::launched(&app(), tx);
    assert_eq!(p.app_id, 42);
    assert_eq!(p.name, "Dev Server");
    assert_eq!(p.status, ProcessStatus::Running);
    assert!(p.logs.is_empty());
    assert!(p.is_running());
    assert_eq!(p.instance_id & 0xF000_C000_0000_0000_0000u128, 0x4000_8000_0000_0000_0000u128);
}

#[test]
fn kill_sends_one_request_to_the_watcher() {
    let (tx, mut rx) = tokio::sync::mpsc::channel::<()>(1);
    let p = RunningProcess::launched(&app(), tx);
    p.kill();
    assert_eq!(rx.try_recv(), Ok(()));
    p.kill();
    p.kill();
    assert_eq!(rx.try_recv(), Ok(()));
    assert!(rx.try_recv().is_err());
}

#[test]
fn processes_are_equal_by_launch() {
    let (tx, _rx) = tokio::sync::mpsc::channel::<()>(1);
    let a = RunningProcess::launched(&app(), tx.clone());
    let mut b = RunningProcess::launched(&app(), tx);
    assert!(a != b);
    b.instance_id = a.instance_id;
    b.status = ProcessStatus::Killed;
    assert!(a == b);
}

#[test]
fn ended_processes_are_not_running() {
    let (tx, _rx) = tokio::sync::mpsc::channel::<()>(1);
    let mut p = RunningProcess::launched(&app(), tx);
    p.status = ProcessStatus::Exited(0);
    assert!(!p.is_running());
    p.status = ProcessStatus::Killed;
    assert!(!p.is_running());
}

#[test]
fn exit_lines() {
    assert_eq!(ProcessStatus::Exited(3).exit_line().as_deref(), Some("[exited with code 3]"));
    assert_eq!(ProcessStatus::Exited(-2).exit_line().as_deref(), Some("[exited with code -2]"));
    assert_eq!(ProcessStatus::Killed.exit_line().as_deref(), Some("[killed]"));
    assert_eq!(ProcessStatus::Running.exit_line(), None);
}

fn line_of(ev: Option<ProcessEvent>) -> Option<(u128, String)> {
    match ev {
        Some(ProcessEvent::Line { instance_id, text }) => Some((instance_id, text)),
        _ => None,
    }
}

fn exit_of(ev: Option<ProcessEvent>) -> Option<(u128, i32)> {
    match ev {
        Some(ProcessEvent::Exited { instance_id, code }) => Some((instance_id, code)),
        _ => None,
    }
}

#[test]
fn watcher_steps() {
    let (ev, stop) = watch_step(7, ChildSignal::KillRequested);
    assert!(stop);
    assert_eq!(exit_of(ev), Some((7, -1)));

    let (ev, stop) = watch_step(7, ChildSignal::Stdout(Some("ready".to_string())));
    assert!(!stop);
    assert_eq!(line_of(ev), Some((7, "ready".to_string())));

    let (ev, stop) = watch_step(7, ChildSignal::Stderr(Some("boom".to_string())));
    assert!(!stop);
    assert_eq!(line_of(ev), Some((7, "[err] boom".to_string())));

    let (ev, stop) = watch_step(7, ChildSignal::Stdout(None));
    assert!(!stop);
    assert!(ev.is_none());
    let (ev, stop) = watch_step(7, ChildSignal::Stderr(None));
    assert!(!stop);
    assert!(ev.is_none());

    let (ev, stop) = watch_step(7, ChildSignal::Exited(Some(2)));
    assert!(stop);
    assert_eq!(exit_of(ev), Some((7, 2)));
    let (ev, stop) = watch_step(7, ChildSignal::Exited(None));
    assert!(stop);
    assert_eq!(exit_of(ev), Some((7, -1)));
}

#[test]
fn stderr_lines_are_shown_as_errors() {
    let (ev, _) = watch_step(1, ChildSignal::Stderr(Some("disk full".to_string())));
    let (_, text) = line_of(ev).unwrap();
    assert_eq!(log_line_class(&text), "log-line err");
    let (ev, _) = watch_step(1, ChildSignal::Stdout(Some("[err] looks like one".to_string())));
    let (_, text) = line_of(ev).unwrap();
    assert_eq!(log_line_class(&text), "log-line err");
    let (ev, _) = watch_step(1, ChildSignal::Stdout(Some("fine".to_string())));
    let (_, text) = line_of(ev).unwrap();
    assert_eq!(log_line_class(&text), "log-line");
}
