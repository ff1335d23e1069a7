use project_butler::toast::{Toast, ToastKind, dismiss_toast, push_toast};

#[test]
fn toasts_have_kinds_and_fresh_ids() {
    let a = Toast::success("saved".to_string());
    let b = Toast::error("failed".to_string());
    assert_eq!(a.kind, ToastKind::Success);
    assert_eq!(b.kind, ToastKind::Error);
    assert_eq!(a.message, "saved");
    assert_ne!(a.id, b.id);
}

#[test]
fn toast_styles() {
    assert_eq!(ToastKind::Success.style(), ("\u{2713}", "toast toast-success"));
    assert_eq!(ToastKind::Error.style(), ("\u{2717}", "toast toast-error"));
}

#[test]
fn push_and_dismiss() {
    let mut toasts = Vec::new();
    let t1 = Toast { id: 1, message: "one".to_string(), kind: ToastKind::Success };
    let t2 = Toast { id: 2, message: "two".to_string(), kind: ToastKind::Error };
    let t3 = Toast { id: 3, message: "three".to_string(), kind: ToastKind::Success };
    push_toast(&mut toasts, t1);
    push_toast(&mut toasts, t2);
    push_toast(&mut toasts, t3);
    assert_eq!(toasts.iter().map(|t| t.id).collect::<Vec<_>>(), vec![1, 2, 3]);
    dismiss_toast(&mut toasts, 2);
    assert_eq!(toasts.iter().map(|t| t.id).collect::<Vec<_>>(), vec![1, 3]);
    dismiss_toast(&mut toasts, 9);
    assert_eq!(toasts.len(), 2);
    dismiss_toast(&mut toasts, 1);
    dismiss_toast(&mut toasts, 3);
    assert!(toasts.is_empty());
}
