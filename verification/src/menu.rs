//! Positional trigger dispatch and menu text: how a selection index
//! into the displayed menu resolves to an action, and the labels the
//! menu shows. The layout over `N` displayed processes: index 0 kills
//! all, index 1 is an inert separator, indices 2 through `N + 1` are
//! the individual kill targets in sorted order, index `N + 2` is an
//! inert separator, index `N + 3` quits, and anything beyond is a
//! no-op.

use vstd::prelude::*;
use vstd::string::*;
use crate::text::{dec_rep, int_rep};
use crate::types::{PortBinding, ProcessInfo};
use crate::snapshot::Snapshot;
use crate::guard::KillRequest;

verus! {

/// What a menu index stands for.
#[derive(Debug, Clone, Copy, PartialEq, Eq, Structural)]
pub enum MenuAction {
    /// Kill every displayed process.
    KillAllProcesses,
    /// A separator: selecting it does nothing.
    Inert,
    /// Kill the displayed process at this position of the sorted
    /// listing.
    KillProcessAt { position: usize },
    /// Quit the application.
    Quit,
    /// An index outside the computed range: ignored.
    NoOp,
}

/// Resolve a selection index against a menu of `count` displayed
/// processes.
pub fn resolve_menu_action(index: usize, count: usize) -> (r: MenuAction)
    requires
        count <= usize::MAX - 3,
    ensures
        index == 0 ==> r == MenuAction::KillAllProcesses,
        index == 1 || index == count + 2 ==> r == MenuAction::Inert,
        2 <= index < count + 2 ==> r == (MenuAction::KillProcessAt {
            position: (index - 2) as usize,
        }),
        index == count + 3 ==> r == MenuAction::Quit,
        index > count + 3 ==> r == MenuAction::NoOp,
{
    if index == 0 {
        MenuAction::KillAllProcesses
    } else if index == 1 {
        MenuAction::Inert
    } else if index < count + 2 {
        MenuAction::KillProcessAt { position: index - 2 }
    } else if index == count + 2 {
        MenuAction::Inert
    } else if index == count + 3 {
        MenuAction::Quit
    } else {
        MenuAction::NoOp
    }
}

/// What a resolved selection asks the shell to do.
#[derive(Debug, Clone, Copy, PartialEq, Eq, Structural)]
pub enum TriggerEvent {
    Kill(KillRequest),
    Quit,
}

/// Resolve a selection index against the currently displayed
/// snapshot: the kill-all, the one process at that position of the
/// port-sorted listing (with its port, for the kill-time re-check),
/// the quit, or nothing.
pub fn resolve_trigger(index: usize, s: &Snapshot) -> (r: Option<TriggerEvent>)
    requires
        s.entries_view().len() <= usize::MAX - 3,
    ensures
        ({
            let count = s.entries_view().len();
            (index == 0 ==> r == Some(TriggerEvent::Kill(KillRequest::KillAll))) && (2 <= index
                < count + 2 ==> r == Some(
                TriggerEvent::Kill(
                    KillRequest::KillOne {
                        pid: s.entries_view()[index - 2].pid as i32,
                        port: s.entries_view()[index - 2].port as u16,
                    },
                ),
            )) && (index == count + 3 ==> r == Some(TriggerEvent::Quit)) && ((index == 1 || index
                == count + 2 || index > count + 3) ==> r is None)
        }),
{
    let count = s.len();
    match resolve_menu_action(index, count) {
        MenuAction::KillAllProcesses => Some(TriggerEvent::Kill(KillRequest::KillAll)),
        MenuAction::KillProcessAt { position } => {
            let e = s.entry_at(position);
            Some(TriggerEvent::Kill(KillRequest::KillOne { pid: e.pid, port: e.port }))
        },
        MenuAction::Quit => Some(TriggerEvent::Quit),
        MenuAction::Inert => None,
        MenuAction::NoOp => None,
    }
}

/// The display line for one binding: its port and name; the container
/// name when the process runs in one, else the pid when pids are
/// shown.
pub open spec fn spec_process_label(b: PortBinding, show_pid: bool) -> Seq<char> {
    let head = "Port "@ + dec_rep(b.port as nat) + ": "@ + b.name;
    if b.container_id is Some && b.container_name is Some {
        head + " [Docker: "@ + b.container_name->0 + "]"@
    } else if show_pid {
        head + " (PID "@ + int_rep(b.pid) + ")"@
    } else {
        head
    }
}

/// Render the display line for one binding.
pub fn process_label(e: &ProcessInfo, show_pid: bool) -> (r: String)
    ensures
        r@ == spec_process_label(e@, show_pid),
{
    let mut s = String::from_str("Port ");
    let port_digits = crate::text::u64_to_string(e.port as u64);
    s.append(port_digits.as_str());
    s.append(": ");
    s.append(e.name.as_str());
    match (&e.container_id, &e.container_name) {
        (Some(_), Some(cname)) => {
            s.append(" [Docker: ");
            s.append(cname.as_str());
            s.append("]");
            s
        },
        _ => {
            if show_pid {
                s.append(" (PID ");
                let pid_digits = crate::text::i64_to_string(e.pid as i64);
                s.append(pid_digits.as_str());
                s.append(")");
                s
            } else {
                s
            }
        },
    }
}

/// The menu entry for killing one binding: the display line behind a
/// kill prefix.
pub open spec fn spec_kill_label(b: PortBinding, show_pid: bool) -> Seq<char> {
    "Kill: "@ + spec_process_label(b, show_pid)
}

/// Render the kill-menu entry for one binding.
pub fn kill_menu_label(e: &ProcessInfo, show_pid: bool) -> (r: String)
    ensures
        r@ == spec_kill_label(e@, show_pid),
{
    let mut s = String::from_str("Kill: ");
    let label = process_label(e, show_pid);
    s.append(label.as_str());
    s
}

/// The tray icon for a process count: green for none, orange for one
/// to nine, red for ten or more.
pub fn tray_icon_name(count: usize) -> (r: &'static str)
    ensures
        count == 0 ==> r@ == "port-kill-green"@,
        1 <= count <= 9 ==> r@ == "port-kill-orange"@,
        count >= 10 ==> r@ == "port-kill-red"@,
{
    if count == 0 {
        "port-kill-green"
    } else if count <= 9 {
        "port-kill-orange"
    } else {
        "port-kill-red"
    }
}

} // verus!
