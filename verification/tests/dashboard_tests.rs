use project_butler::dashboard::{
    app_added_message, apply_exit, apply_line, exit_message, find_process, handle_event,
    log_panel_visible, project_added_message, record_launch, remove_process, shown_log_tab,
};
use project_butler::process::{ProcessEvent, ProcessStatus, RunningProcess};
use project_butler::toast::{Toast, ToastKind};

fn proc(instance_id: u128, app_id: u128, name: &str) -> RunningProcess {
    let (tx, _rx) = tokio::sync::mpsc::channel::<()>(1);
    RunningProcess {
        instance_id,
        app_id,
        name: name.to_string(),
        status: ProcessStatus::Running,
        logs: vec![],
        killer: tx,
    }
}

#[test]
fn lines_go_to_the_process_they_name() {
    let mut procs = vec![proc(1, 10, "a"), proc(2, 20, "b")];
    apply_line(&mut procs, 2, "hello".to_string());
    apply_line(&mut procs, 2, "world".to_string());
    apply_line(&mut procs, 9, "lost".to_string());
    assert!(procs[0].logs.is_empty());
    assert_eq!(procs[1].logs, vec!["hello", "world"]);
}

#[test]
fn logs_keep_at_most_a_thousand_lines() {
    let mut procs = vec![proc(1, 10, "a")];
    for i in 0..1000 {
        apply_line(&mut procs, 1, i.to_string());
    }
    assert_eq!(procs[0].logs.len(), 1000);
    assert_eq!(procs[0].logs[0], "0");
    apply_line(&mut procs, 1, "1000".to_string());
    assert_eq!(procs[0].logs.len(), 901);
    assert_eq!(procs[0].logs[0], "100");
    assert_eq!(procs[0].logs[900], "1000");
    for i in 1001..1100 {
        apply_line(&mut procs, 1, i.to_string());
    }
    assert_eq!(procs[0].logs.len(), 1000);
    assert_eq!(procs[0].logs[999], "1099");
}

#[test]
fn exits_set_the_status() {
    let mut procs = vec![proc(1, 10, "a"), proc(2, 20, "b")];
    assert_eq!(apply_exit(&mut procs, 1, 0).as_deref(), Some("a"));
    assert_eq!(procs[0].status, ProcessStatus::Exited(0));
    assert_eq!(apply_exit(&mut procs, 2, -1).as_deref(), Some("b"));
    assert_eq!(procs[1].status, ProcessStatus::Killed);
    assert_eq!(apply_exit(&mut procs, 3, 5), None);
}

#[test]
fn the_first_process_with_an_id_is_found() {
    let procs = vec![proc(1, 10, "a"), proc(2, 20, "b"), proc(2, 30, "c")];
    assert_eq!(find_process(&procs, 2), Some(1));
    assert_eq!(find_process(&procs, 4), None);
}

#[test]
fn exit_messages() {
    assert_eq!(exit_message("Dev", 0), "'Dev' exited cleanly");
    assert_eq!(exit_message("Dev", -1), "'Dev' was killed");
    assert_eq!(exit_message("Dev", 101), "'Dev' exited with code 101");
    assert_eq!(exit_message("Dev", -9), "'Dev' exited with code -9");
}

#[test]
fn events_update_processes_and_notices() {
    let mut procs = vec![proc(1, 10, "api")];
    let mut toasts: Vec<Toast> = vec![];
    handle_event(&mut procs, &mut toasts, ProcessEvent::Line { instance_id: 1, text: "up".to_string() });
    assert_eq!(procs[0].logs, vec!["up"]);
    assert!(toasts.is_empty());

    handle_event(&mut procs, &mut toasts, ProcessEvent::Exited { instance_id: 1, code: 0 });
    assert_eq!(procs[0].status, ProcessStatus::Exited(0));
    assert_eq!(toasts.len(), 1);
    assert_eq!(toasts[0].kind, ToastKind::Success);
    assert_eq!(toasts[0].message, "'api' exited cleanly");

    handle_event(&mut procs, &mut toasts, ProcessEvent::Exited { instance_id: 1, code: 3 });
    assert_eq!(toasts[1].kind, ToastKind::Error);
    assert_eq!(toasts[1].message, "'api' exited with code 3");

    handle_event(&mut procs, &mut toasts, ProcessEvent::Exited { instance_id: 5, code: 0 });
    assert_eq!(toasts.len(), 2);

    handle_event(&mut procs, &mut toasts, ProcessEvent::Failed { app_id: 10, reason: "not found".to_string() });
    assert_eq!(toasts.len(), 3);
    assert_eq!(toasts[2].kind, ToastKind::Error);
    assert_eq!(toasts[2].message, "Launch failed: not found");
    assert_eq!(procs.len(), 1);
}

#[test]
fn a_kill_gives_an_error_notice() {
    let mut procs = vec![proc(1, 10, "api")];
    let mut toasts: Vec<Toast> = vec![];
    handle_event(&mut procs, &mut toasts, ProcessEvent::Exited { instance_id: 1, code: -1 });
    assert_eq!(procs[0].status, ProcessStatus::Killed);
    assert_eq!(toasts[0].kind, ToastKind::Error);
    assert_eq!(toasts[0].message, "'api' was killed");
}

#[test]
fn launches_are_recorded_with_the_app_id_as_active_tab() {
    let mut procs = vec![];
    let mut active = None;
    record_launch(&mut procs, &mut active, Some(proc(1, 10, "a")));
    assert_eq!(procs.len(), 1);
    assert_eq!(active, Some(10));
    record_launch(&mut procs, &mut active, None);
    assert_eq!(procs.len(), 1);
    assert_eq!(active, Some(10));
}

#[test]
fn the_shown_tab_falls_back_to_the_first_process() {
    let procs = vec![proc(1, 10, "a"), proc(2, 20, "b")];
    assert_eq!(shown_log_tab(&procs, Some(2)), Some(2));
    assert_eq!(shown_log_tab(&procs, Some(10)), Some(1));
    assert_eq!(shown_log_tab(&procs, None), Some(1));
    assert_eq!(shown_log_tab(&vec![], Some(2)), None);
}

#[test]
fn closing_a_tab_removes_its_process() {
    let mut procs = vec![proc(1, 10, "a"), proc(2, 20, "b"), proc(3, 30, "c")];
    let mut active = Some(2);
    remove_process(&mut procs, &mut active, 2);
    assert_eq!(procs.iter().map(|p| p.instance_id).collect::<Vec<_>>(), vec![1, 3]);
    assert_eq!(active, None);
    let mut active = Some(1);
    remove_process(&mut procs, &mut active, 3);
    assert_eq!(procs.len(), 1);
    assert_eq!(active, Some(1));
}

#[test]
fn the_log_panel_needs_processes_and_an_active_tab() {
    let procs = vec![proc(1, 10, "a")];
    assert!(log_panel_visible(&procs, Some(1)));
    assert!(!log_panel_visible(&procs, None));
    assert!(!log_panel_visible(&vec![], Some(1)));
}

#[test]
fn added_messages() {
    assert_eq!(project_added_message("Game"), "Project 'Game' added");
    assert_eq!(app_added_message(" Dev "), "App ' Dev ' added");
}

#[test]
fn events_keep_the_launches() {
    let mut procs = vec![proc(1, 10, "a"), proc(2, 20, "b")];
    let mut toasts: Vec<Toast> = vec![];
    handle_event(&mut procs, &mut toasts, ProcessEvent::Line { instance_id: 1, text: "x".to_string() });
    handle_event(&mut procs, &mut toasts, ProcessEvent::Exited { instance_id: 2, code: 4 });
    let ids: Vec<(u128, u128, String)> = procs.iter().map(|p| (p.instance_id, p.app_id, p.name.clone())).collect();
    assert_eq!(ids, vec![(1, 10, "a".to_string()), (2, 20, "b".to_string())]);
    assert_eq!(procs[0].status, ProcessStatus::Running);
    assert_eq!(procs[1].logs.len(), 0);
}
