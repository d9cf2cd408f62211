//! The data the monitor publishes: one process bound to one port, and
//! the status-bar summary derived from a scan.

use vstd::prelude::*;
use vstd::string::*;
use crate::text::{dec_rep, int_rep};

verus! {

/// Mathematical model of one port binding: everything the library's
/// contracts say about a discovered process.
pub ghost struct PortBinding {
    /// Process id of the listener.
    pub pid: int,
    /// The bound port.
    pub port: int,
    /// Full command string, `"unknown"` when identity resolution failed.
    pub command: Seq<char>,
    /// Display name: the basename of the command.
    pub name: Seq<char>,
    /// Container id, when the process runs inside one.
    pub container_id: Option<Seq<char>>,
    /// Container name, when one was resolved for `container_id`.
    pub container_name: Option<Seq<char>>,
}

/// One discovered process holding one port, as published in a snapshot.
#[derive(Debug, Clone)]
pub struct ProcessInfo {
    pub pid: i32,
    pub port: u16,
    pub command: String,
    pub name: String,
    pub container_id: Option<String>,
    pub container_name: Option<String>,
}

impl View for ProcessInfo {
    type V = PortBinding;

    open spec fn view(&self) -> PortBinding {
        PortBinding {
            pid: self.pid as int,
            port: self.port as int,
            command: self.command@,
            name: self.name@,
            container_id: match self.container_id {
                Some(s) => Some(s@),
                None => None,
            },
            container_name: match self.container_name {
                Some(s) => Some(s@),
                None => None,
            },
        }
    }
}

/// Equality of optional strings, by contents.
fn opt_string_eq(a: &Option<String>, b: &Option<String>) -> (r: bool)
    ensures
        r == (match (a, b) {
            (Some(x), Some(y)) => x@ == y@,
            (None, None) => true,
            _ => false,
        }),
{
    match (a, b) {
        (Some(x), Some(y)) => *x == *y,
        (None, None) => true,
        _ => false,
    }
}

impl PartialEq for ProcessInfo {
    /// Structural equality: two bindings are the same process identity
    /// on the same port, down to container membership.
    fn eq(&self, other: &ProcessInfo) -> (r: bool) {
        self.pid == other.pid && self.port == other.port && self.command == other.command
            && self.name == other.name && opt_string_eq(&self.container_id, &other.container_id)
            && opt_string_eq(&self.container_name, &other.container_name)
    }
}

impl vstd::std_specs::cmp::PartialEqSpecImpl for ProcessInfo {
    open spec fn obeys_eq_spec() -> bool {
        true
    }

    open spec fn eq_spec(&self, other: &ProcessInfo) -> bool {
        self@ == other@
    }
}

impl ProcessInfo {
    /// A copy whose model is the same binding.
    pub fn duplicate(&self) -> (r: ProcessInfo)
        ensures
            r@ == self@,
    {
        ProcessInfo {
            pid: self.pid,
            port: self.port,
            command: self.command.clone(),
            name: self.name.clone(),
            container_id: match &self.container_id {
                Some(s) => Some(s.clone()),
                None => None,
            },
            container_name: match &self.container_name {
                Some(s) => Some(s.clone()),
                None => None,
            },
        }
    }
}

/// The status-bar text for a scan that found `count` processes.
pub open spec fn status_text_spec(count: nat) -> Seq<char> {
    dec_rep(count)
}

/// The status-bar tooltip for a scan that found `count` processes.
pub open spec fn status_tooltip_spec(count: nat) -> Seq<char> {
    if count == 0 {
        "Port Kill - No processes detected"@
    } else if count == 1 {
        "Port Kill - 1 process running"@
    } else {
        "Port Kill - "@ + dec_rep(count) + " processes running"@
    }
}

/// What the status bar shows for one scan cycle.
#[derive(Debug, Clone)]
pub struct StatusBarInfo {
    pub text: String,
    pub tooltip: String,
}

impl StatusBarInfo {
    /// Summarize a process count for the status bar.
    pub fn from_process_count(count: usize) -> (r: StatusBarInfo)
        ensures
            r.text@ == status_text_spec(count as nat),
            r.tooltip@ == status_tooltip_spec(count as nat),
    {
        let text = crate::text::u64_to_string(count as u64);
        let tooltip = if count == 0 {
            String::from_str("Port Kill - No processes detected")
        } else if count == 1 {
            String::from_str("Port Kill - 1 process running")
        } else {
            let mut t = String::from_str("Port Kill - ");
            let digits = crate::text::u64_to_string(count as u64);
            t.append(digits.as_str());
            t.append(" processes running");
            t
        };
        StatusBarInfo { text, tooltip }
    }
}

} // verus!
