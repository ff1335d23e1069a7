//! The state behind the main window: the launched processes and their log
//! tabs, the notices, and how events from running children update them.

use vstd::prelude::*;
use vstd::string::*;
use crate::lookup::{
    first_index, lemma_filter_keeps_all, lemma_first_index, lemma_first_index_at,
    lemma_first_index_none,
};
use crate::process::{
    LOG_DROP, LOG_LIMIT, ProcessEvent, ProcessStatus, RunningProcess, appended_log, instance_ids,
    log_stays_within_limit, same_but_logs, same_but_status, status_for_exit,
};
use crate::text::{signed_decimal, signed_decimal_string};
use crate::toast::{Toast, ToastKind, push_toast};
use crate::trusted::is_v4_id;

verus! {

/// `new` is `old` after a line of output for the process `id` came in: the
/// first process with that id has the line appended to its log (the log
/// trimmed past its limit); without such a process nothing changes.
pub open spec fn line_applied(
    old: Seq<RunningProcess>,
    new: Seq<RunningProcess>,
    id: u128,
    text: String,
) -> bool {
    match first_index(instance_ids(old), id) {
        Some(i) => {
            &&& new.len() == old.len()
            &&& forall|k: int| 0 <= k < old.len() && k != i ==> #[trigger] new[k] == old[k]
            &&& same_but_logs(old[i], new[i])
            &&& new[i].logs@ == appended_log(old[i].logs@, text)
        },
        None => new == old,
    }
}

/// `new` is `old` after the process `id` ended with `code`: the first process
/// with that id takes the status the code gives; without such a process
/// nothing changes.
pub open spec fn exit_applied(
    old: Seq<RunningProcess>,
    new: Seq<RunningProcess>,
    id: u128,
    code: i32,
) -> bool {
    match first_index(instance_ids(old), id) {
        Some(i) => {
            &&& new.len() == old.len()
            &&& forall|k: int| 0 <= k < old.len() && k != i ==> #[trigger] new[k] == old[k]
            &&& same_but_status(old[i], new[i])
            &&& new[i].status == status_for_exit(code)
        },
        None => new == old,
    }
}

/// The notice text for the process `name` ending with `code`.
pub open spec fn exit_message_of(name: Seq<char>, code: i32) -> Seq<char> {
    if code == 0 {
        "'"@ + name + "' exited cleanly"@
    } else if code == -1 {
        "'"@ + name + "' was killed"@
    } else {
        "'"@ + name + "' exited with code "@ + signed_decimal(code as int)
    }
}

/// The kind of notice an exit code gives: success only for a clean exit.
pub open spec fn kind_for_exit(code: i32) -> ToastKind {
    if code == 0 {
        ToastKind::Success
    } else {
        ToastKind::Error
    }
}

/// Whether `t` is a fresh notice of kind `kind` with text `message`.
pub open spec fn fresh_toast(t: Toast, kind: ToastKind, message: Seq<char>) -> bool {
    is_v4_id(t.id) && t.kind == kind && t.message@ == message
}

/// Whether a process is not the launch `id`.
pub open spec fn not_instance(id: u128) -> spec_fn(RunningProcess) -> bool {
    |p: RunningProcess| p.instance_id != id
}

/// The log tab shown: the active one while it names a process, else the
/// first process; none without processes.
pub open spec fn shown_tab(ps: Seq<RunningProcess>, active: Option<u128>) -> Option<u128> {
    if ps.len() == 0 {
        None
    } else if active is Some && instance_ids(ps).contains(active->0) {
        active
    } else {
        Some(ps[0].instance_id)
    }
}

/// The position of the first process with instance id `id`.
pub fn find_process(procs: &Vec<RunningProcess>, id: u128) -> (r: Option<usize>)
    ensures
        match r {
            Some(i) => {
                &&& first_index(instance_ids(procs@), id) == Some(i as int)
                &&& i < procs@.len()
                &&& procs@[i as int].instance_id == id
            },
            None => first_index(instance_ids(procs@), id) is None,
        },
{
    let n = procs.len();
    let mut i: usize = 0;
    while i < n
        invariant
            i <= n,
            n == procs@.len(),
            forall|k: int| 0 <= k < i ==> instance_ids(procs@)[k] != id,
        decreases n - i,
    {
        if procs[i].instance_id == id {
            proof {
                lemma_first_index_at(instance_ids(procs@), id, i as int);
            }
            return Some(i);
        }
        i = i + 1;
    }
    proof {
        lemma_first_index_none(instance_ids(procs@), id);
    }
    None
}

/// Appends a line of output to the log of the process `instance_id`; past
/// the limit of lines the oldest are dropped.
pub fn apply_line(procs: &mut Vec<RunningProcess>, instance_id: u128, text: String)
    ensures
        line_applied(old(procs)@, final(procs)@, instance_id, text),
{
    match find_process(procs, instance_id) {
        Some(i) => {
            let mut p = procs.remove(i);
            let ghost before = p;
            p.logs.push(text);
            if p.logs.len() > LOG_LIMIT {
                let rest = p.logs.split_off(LOG_DROP);
                p.logs = rest;
            }
            assert(p.logs@ =~= appended_log(before.logs@, text));
            procs.insert(i, p);
            assert(procs@ =~= old(procs)@.update(i as int, p));
        },
        None => {},
    }
}

/// Records that the process `instance_id` ended with `code`; returns its
/// name where there is such a process.
pub fn apply_exit(procs: &mut Vec<RunningProcess>, instance_id: u128, code: i32) -> (name: Option<
    String,
>)
    ensures
        exit_applied(old(procs)@, final(procs)@, instance_id, code),
        match first_index(instance_ids(old(procs)@), instance_id) {
            Some(i) => name == Some(old(procs)@[i].name),
            None => name is None,
        },
{
    match find_process(procs, instance_id) {
        Some(i) => {
            let mut p = procs.remove(i);
            p.status = if code == -1 {
                ProcessStatus::Killed
            } else {
                ProcessStatus::Exited(code)
            };
            let name = p.name.clone();
            procs.insert(i, p);
            assert(procs@ =~= old(procs)@.update(i as int, p));
            Some(name)
        },
        None => None,
    }
}

/// The notice text for the process `name` ending with `code`.
pub fn exit_message(name: &str, code: i32) -> (r: String)
    ensures
        r@ == exit_message_of(name@, code),
{
    let mut r = String::from_str("'");
    r.append(name);
    if code == 0 {
        r.append("' exited cleanly");
    } else if code == -1 {
        r.append("' was killed");
    } else {
        r.append("' exited with code ");
        r.append(signed_decimal_string(code).as_str());
    }
    r
}

/// Updates the processes and the notices for an event from a watcher:
/// a line goes to the log of its process; an exit sets the status of its
/// process and, where there is one, adds a notice (a success for a clean
/// exit, else an error); a failed launch adds an error notice.
pub fn handle_event(procs: &mut Vec<RunningProcess>, toasts: &mut Vec<Toast>, event: ProcessEvent)
    ensures
        match event {
            ProcessEvent::Line { instance_id, text } => {
                &&& line_applied(old(procs)@, final(procs)@, instance_id, text)
                &&& final(toasts)@ == old(toasts)@
            },
            ProcessEvent::Exited { instance_id, code } => {
                &&& exit_applied(old(procs)@, final(procs)@, instance_id, code)
                &&& match first_index(instance_ids(old(procs)@), instance_id) {
                    Some(i) => {
                        &&& final(toasts)@.len() == old(toasts)@.len() + 1
                        &&& final(toasts)@.drop_last() == old(toasts)@
                        &&& fresh_toast(
                            final(toasts)@.last(),
                            kind_for_exit(code),
                            exit_message_of(old(procs)@[i].name@, code),
                        )
                    },
                    None => final(toasts)@ == old(toasts)@,
                }
            },
            ProcessEvent::Failed { app_id, reason } => {
                &&& final(procs)@ == old(procs)@
                &&& final(toasts)@.len() == old(toasts)@.len() + 1
                &&& final(toasts)@.drop_last() == old(toasts)@
                &&& fresh_toast(
                    final(toasts)@.last(),
                    ToastKind::Error,
                    "Launch failed: "@ + reason@,
                )
            },
        },
{
    match event {
        ProcessEvent::Line { instance_id, text } => {
            apply_line(procs, instance_id, text);
        },
        ProcessEvent::Exited { instance_id, code } => {
            match apply_exit(procs, instance_id, code) {
                Some(name) => {
                    let msg = exit_message(name.as_str(), code);
                    let toast = if code == 0 {
                        Toast::success(msg)
                    } else {
                        Toast::error(msg)
                    };
                    push_toast(toasts, toast);
                    assert(toasts@.drop_last() =~= old(toasts)@);
                },
                None => {},
            }
        },
        ProcessEvent::Failed { app_id, reason } => {
            let mut msg = String::from_str("Launch failed: ");
            msg.append(reason.as_str());
            push_toast(toasts, Toast::error(msg));
            assert(toasts@.drop_last() =~= old(toasts)@);
        },
    }
}

/// Records a launch: a process that started is added and its tab made
/// active (by the id of its app); a launch that failed changes nothing.
pub fn record_launch(
    procs: &mut Vec<RunningProcess>,
    active_tab: &mut Option<u128>,
    launched: Option<RunningProcess>,
)
    ensures
        match launched {
            Some(p) => {
                &&& final(procs)@ == old(procs)@.push(p)
                &&& *final(active_tab) == Some(p.app_id)
            },
            None => {
                &&& final(procs)@ == old(procs)@
                &&& *final(active_tab) == *old(active_tab)
            },
        },
{
    match launched {
        Some(p) => {
            let app_id = p.app_id;
            procs.push(p);
            *active_tab = Some(app_id);
        },
        None => {},
    }
}

/// The log tab to show, given the active one.
pub fn shown_log_tab(procs: &Vec<RunningProcess>, active: Option<u128>) -> (r: Option<u128>)
    ensures
        r == shown_tab(procs@, active),
{
    if procs.len() == 0 {
        return None;
    }
    match active {
        Some(id) => match find_process(procs, id) {
            Some(i) => {
                assert(instance_ids(procs@)[i as int] == id);
                Some(id)
            },
            None => {
                proof {
                    lemma_first_index(instance_ids(procs@), id);
                }
                Some(procs[0].instance_id)
            },
        },
        None => Some(procs[0].instance_id),
    }
}

/// Closes the log tab of the launch `instance_id`: its process goes from the
/// list, and the active tab is cleared where it was that one.
pub fn remove_process(procs: &mut Vec<RunningProcess>, active_tab: &mut Option<u128>, instance_id: u128)
    ensures
        final(procs)@ == old(procs)@.filter(not_instance(instance_id)),
        *final(active_tab) == (if *old(active_tab) == Some(instance_id) {
            None
        } else {
            *old(active_tab)
        }),
{
    let ghost orig = procs@;
    let mut rest = procs.split_off(0);
    assert(procs@ =~= orig.take(0).filter(not_instance(instance_id))) by {
        reveal_with_fuel(Seq::<_>::filter, 1);
    }
    assert(rest@ =~= orig.skip(0));
    while rest.len() > 0
        invariant
            rest@.len() <= orig.len(),
            rest@ == orig.skip(orig.len() - rest@.len()),
            procs@ == orig.take(orig.len() - rest@.len()).filter(not_instance(instance_id)),
        decreases rest@.len(),
    {
        let ghost k = orig.len() - rest@.len();
        let p = rest.remove(0);
        assert(p == orig[k]);
        assert(orig.take(k + 1).drop_last() =~= orig.take(k));
        assert(orig.take(k + 1).last() == orig[k]);
        reveal_with_fuel(Seq::<_>::filter, 1);
        if p.instance_id != instance_id {
            procs.push(p);
        }
        assert(rest@ =~= orig.skip(k + 1));
    }
    assert(orig.take(orig.len() as int) =~= orig);
    if *active_tab == Some(instance_id) {
        *active_tab = None;
    }
}

/// Whether the log panel is shown: there are processes and a tab is active.
pub fn log_panel_visible(procs: &Vec<RunningProcess>, active_tab: Option<u128>) -> (r: bool)
    ensures
        r == (procs@.len() > 0 && active_tab is Some),
{
    procs.len() > 0 && active_tab.is_some()
}

/// The notice text for a project added under `name`.
pub fn project_added_message(name: &str) -> (r: String)
    ensures
        r@ == "Project '"@ + name@ + "' added"@,
{
    let mut r = String::from_str("Project '");
    r.append(name);
    r.append("' added");
    r
}

/// The notice text for an app added under `name`.
pub fn app_added_message(name: &str) -> (r: String)
    ensures
        r@ == "App '"@ + name@ + "' added"@,
{
    let mut r = String::from_str("App '");
    r.append(name);
    r.append("' added");
    r
}


/// Whether `new` holds the same launches as `old`, in the same order: the
/// same instance ids, app ids and names.
pub open spec fn keeps_launches(old: Seq<RunningProcess>, new: Seq<RunningProcess>) -> bool {
    &&& new.len() == old.len()
    &&& forall|k: int|
        0 <= k < old.len() ==> (#[trigger] new[k]).instance_id == old[k].instance_id
            && new[k].app_id == old[k].app_id && new[k].name == old[k].name
}

/// Law: a line of output neither adds nor removes processes nor changes
/// which launch each one is; only the log of the process it names changes.
pub proof fn lines_keep_launches(
    old: Seq<RunningProcess>,
    new: Seq<RunningProcess>,
    id: u128,
    text: String,
)
    requires
        line_applied(old, new, id, text),
    ensures
        keeps_launches(old, new),
        forall|k: int|
            0 <= k < old.len() ==> (#[trigger] new[k]).status == old[k].status,
{
    lemma_first_index(instance_ids(old), id);
}

/// Law: an exit neither adds nor removes processes nor changes which launch
/// each one is; only the status of the process it names changes, and no log.
pub proof fn exits_keep_launches(old: Seq<RunningProcess>, new: Seq<RunningProcess>, id: u128, code: i32)
    requires
        exit_applied(old, new, id, code),
    ensures
        keeps_launches(old, new),
        forall|k: int| 0 <= k < old.len() ==> (#[trigger] new[k]).logs == old[k].logs,
{
    lemma_first_index(instance_ids(old), id);
}

/// Law: the log tab shown names one of the processes, there is one exactly
/// when there are processes, and it is the active tab whenever that still
/// names a process.
pub proof fn shown_tab_names_a_process(ps: Seq<RunningProcess>, active: Option<u128>)
    ensures
        shown_tab(ps, active) is Some <==> ps.len() > 0,
        shown_tab(ps, active) matches Some(id) ==> instance_ids(ps).contains(id),
        active matches Some(a) && instance_ids(ps).contains(a) ==> shown_tab(ps, active) == active,
{
    if ps.len() > 0 {
        assert(instance_ids(ps)[0] == ps[0].instance_id);
    }
}


/// Law: closing the tab of a launch leaves no process of that launch, keeps
/// every other process, and closing it again changes nothing.
pub proof fn closing_a_tab_removes_only_that_process(ps: Seq<RunningProcess>, id: u128)
    ensures
        forall|k: int|
            0 <= k < ps.filter(not_instance(id)).len() ==> (#[trigger] ps.filter(
                not_instance(id),
            )[k]).instance_id != id,
        forall|k: int|
            0 <= k < ps.len() && ps[k].instance_id != id ==> ps.filter(not_instance(id)).contains(
                #[trigger] ps[k],
            ),
        ps.filter(not_instance(id)).filter(not_instance(id)) == ps.filter(not_instance(id)),
{
    broadcast use vstd::seq_lib::group_filter_ensures;
    let kept = ps.filter(not_instance(id));
    assert forall|k: int| 0 <= k < kept.len() implies (#[trigger] kept[k]).instance_id != id by {
        assert(not_instance(id)(kept[k]));
    }
    assert forall|k: int| 0 <= k < ps.len() && ps[k].instance_id != id implies kept.contains(
        #[trigger] ps[k],
    ) by {
        assert(not_instance(id)(ps[k]));
    }
    lemma_filter_keeps_all(kept, not_instance(id));
}


/// Whether every process keeps its log to the limit of lines.
pub open spec fn logs_within_limit(ps: Seq<RunningProcess>) -> bool {
    forall|k: int| 0 <= k < ps.len() ==> (#[trigger] ps[k]).logs@.len() <= LOG_LIMIT
}

/// Law: while every log keeps to the limit, a line of output keeps every log
/// to it, whichever process it names.
pub proof fn lines_keep_logs_within_limit(
    old: Seq<RunningProcess>,
    new: Seq<RunningProcess>,
    id: u128,
    text: String,
)
    requires
        logs_within_limit(old),
        line_applied(old, new, id, text),
    ensures
        logs_within_limit(new),
{
    lemma_first_index(instance_ids(old), id);
    match first_index(instance_ids(old), id) {
        Some(i) => {
            log_stays_within_limit(old[i].logs@, text);
            assert forall|k: int| 0 <= k < new.len() implies (#[trigger] new[k]).logs@.len()
                <= LOG_LIMIT by {
                if k != i {
                    assert(new[k] == old[k]);
                }
            }
        },
        None => {},
    }
}

/// Law: an exit changes no log, so every log that kept to the limit still does.
pub proof fn exits_keep_logs_within_limit(
    old: Seq<RunningProcess>,
    new: Seq<RunningProcess>,
    id: u128,
    code: i32,
)
    requires
        logs_within_limit(old),
        exit_applied(old, new, id, code),
    ensures
        logs_within_limit(new),
{
    exits_keep_launches(old, new, id, code);
    assert forall|k: int| 0 <= k < new.len() implies (#[trigger] new[k]).logs@.len() <= LOG_LIMIT by {
        assert(new[k].logs == old[k].logs);
    }
}

/// Law: an exit sets the status of the first process of that launch to the
/// code it exited with, or to killed for `-1`.
pub proof fn exits_set_the_exit_status(
    old: Seq<RunningProcess>,
    new: Seq<RunningProcess>,
    id: u128,
    code: i32,
    i: int,
)
    requires
        exit_applied(old, new, id, code),
        0 <= i < old.len(),
        old[i].instance_id == id,
        forall|k: int| 0 <= k < i ==> old[k].instance_id != id,
    ensures
        code == -1 ==> new[i].status == ProcessStatus::Killed,
        code != -1 ==> new[i].status == ProcessStatus::Exited(code),
        new[i].logs == old[i].logs,
{
    assert(instance_ids(old)[i] == id);
    assert forall|k: int| 0 <= k < i implies instance_ids(old)[k] != id by {
        assert(instance_ids(old)[k] == old[k].instance_id);
    }
    lemma_first_index_at(instance_ids(old), id, i);
}

/// Law: a line for a process whose log holds fewer than 1000 lines keeps all
/// of them and adds the new line at the end, whatever the line holds.
pub proof fn lines_keep_earlier_output(
    old: Seq<RunningProcess>,
    new: Seq<RunningProcess>,
    id: u128,
    text: String,
    i: int,
)
    requires
        line_applied(old, new, id, text),
        0 <= i < old.len(),
        old[i].instance_id == id,
        forall|k: int| 0 <= k < i ==> old[k].instance_id != id,
        old[i].logs@.len() < 1000,
    ensures
        new[i].logs@ == old[i].logs@.push(text),
        new[i].status == old[i].status,
{
    assert(instance_ids(old)[i] == id);
    assert forall|k: int| 0 <= k < i implies instance_ids(old)[k] != id by {
        assert(instance_ids(old)[k] == old[k].instance_id);
    }
    lemma_first_index_at(instance_ids(old), id, i);
}

/// Law: a clean exit gives a success notice; every other code, a kill among
/// them, gives an error notice.
pub proof fn only_clean_exits_give_success(code: i32)
    ensures
        code == 0 ==> kind_for_exit(code) == ToastKind::Success,
        code != 0 ==> kind_for_exit(code) == ToastKind::Error,
{
}

/// Law: the notice for an exit names the process between quotes first; for
/// any code but `0` and `-1` it ends with the code in decimal.
pub proof fn exit_messages_name_the_process(name: Seq<char>, code: i32)
    ensures
        exit_message_of(name, code).take(name.len() + 2 as int) == seq!['\''] + name + seq!['\''],
        code != 0 && code != -1 ==> exit_message_of(name, code).skip(
            exit_message_of(name, code).len() - signed_decimal(code as int).len(),
        ) == signed_decimal(code as int),
{
    reveal_strlit("'");
    reveal_strlit("' exited cleanly");
    reveal_strlit("' was killed");
    reveal_strlit("' exited with code ");
    let m = exit_message_of(name, code);
    assert(m.take(name.len() + 2 as int) =~= seq!['\''] + name + seq!['\'']);
    if code != 0 && code != -1 {
        let d = signed_decimal(code as int);
        assert(m.skip(m.len() - d.len()) =~= d);
    }
}

} // verus!
