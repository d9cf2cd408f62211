//! The monitoring session's configuration as the shell hands it in:
//! the port range or explicit port list, the exclusions, and the
//! display and logging switches.

use vstd::prelude::*;
use vstd::string::*;
use std::collections::HashSet;
use crate::text::{dec_rep, join_views, join_dec_views, trim_spec, views_of};

verus! {

/// How much the shell should log.
#[derive(Debug, Clone, Copy, PartialEq, Eq, Structural)]
pub enum LogLevel {
    /// Show all logs (info, warn, error).
    Info,
    /// Show only warning and error logs.
    Warn,
    /// Show only error logs.
    Error,
    /// Show no logs.
    Off,
}

impl LogLevel {
    /// The logging filter string this level stands for.
    pub fn to_rust_log(&self) -> (r: &'static str)
        ensures
            *self == LogLevel::Info ==> r@ == "info"@,
            *self == LogLevel::Warn ==> r@ == "warn"@,
            *self == LogLevel::Error ==> r@ == "error"@,
            *self == LogLevel::Off ==> r@ == "off"@,
    {
        match self {
            LogLevel::Info => "info",
            LogLevel::Warn => "warn",
            LogLevel::Error => "error",
            LogLevel::Off => "off",
        }
    }

    /// Is info-level logging enabled?
    pub fn is_info_enabled(&self) -> (r: bool)
        ensures
            r == (*self == LogLevel::Info),
    {
        match self {
            LogLevel::Info => true,
            _ => false,
        }
    }

    /// Is warning-level logging enabled?
    pub fn is_warn_enabled(&self) -> (r: bool)
        ensures
            r == (*self == LogLevel::Info || *self == LogLevel::Warn),
    {
        match self {
            LogLevel::Info => true,
            LogLevel::Warn => true,
            _ => false,
        }
    }

    /// Is error-level logging enabled?
    pub fn is_error_enabled(&self) -> (r: bool)
        ensures
            r == (*self == LogLevel::Info || *self == LogLevel::Warn || *self == LogLevel::Error),
    {
        match self {
            LogLevel::Off => false,
            _ => true,
        }
    }
}

/// The session configuration: a start-to-end port range or an
/// explicit port list (which overrides the range), the exclusions,
/// and the mode switches.
pub struct Args {
    /// Starting port for range scanning (inclusive).
    pub start_port: u16,
    /// Ending port for range scanning (inclusive).
    pub end_port: u16,
    /// Specific ports to monitor; overrides the range when present.
    pub ports: Option<Vec<u16>>,
    /// Ports to ignore.
    pub ignore_ports: Option<Vec<u16>>,
    /// Process names to ignore.
    pub ignore_processes: Option<Vec<String>>,
    /// Run in console mode instead of status bar mode.
    pub console: bool,
    /// Enable verbose logging.
    pub verbose: bool,
    /// Enable container monitoring.
    pub docker: bool,
    /// Show process ids in the display output.
    pub show_pid: bool,
    /// How much to log.
    pub log_level: LogLevel,
}

/// The ports one session monitors: the explicit list when given,
/// otherwise every port of the inclusive range.
pub open spec fn spec_ports_to_monitor(a: &Args) -> Seq<u16> {
    match a.ports {
        Some(ps) => ps@,
        None => {
            if a.start_port <= a.end_port {
                Seq::new(
                    (a.end_port - a.start_port + 1) as nat,
                    |i: int| (a.start_port + i) as u16,
                )
            } else {
                Seq::empty()
            }
        },
    }
}

/// The first broken rule of a configuration, with its message: the
/// range must not be inverted, an explicit port list must be
/// non-empty and free of port zero, ignored ports must not be zero,
/// and ignored names must not be blank.
pub open spec fn spec_validate(a: &Args) -> Option<Seq<char>> {
    if a.start_port > a.end_port {
        Some("Start port cannot be greater than end port"@)
    } else if a.ports matches Some(ps) && ps@.len() == 0 {
        Some("At least one port must be specified"@)
    } else if a.ports matches Some(ps) && (exists|i: int| 0 <= i < ps@.len() && ps@[i] == 0) {
        Some("Port 0 is not valid"@)
    } else if a.ignore_ports matches Some(ip) && (exists|i: int|
        0 <= i < ip@.len() && ip@[i] == 0) {
        Some("Ignore port 0 is not valid"@)
    } else if a.ignore_processes matches Some(ns) && (exists|i: int|
        0 <= i < ns@.len() && trim_spec(ns@[i]@).len() == 0) {
        Some("Ignore process names cannot be empty"@)
    } else {
        None
    }
}

/// The description of the port configuration: the range or the
/// explicit list, and the exclusions in force.
pub open spec fn spec_port_description(a: &Args) -> Seq<char> {
    let base = match a.ports {
        Some(ps) => "specific ports: "@ + join_dec_views(ps@, ", "@),
        None => "port range: "@ + dec_rep(a.start_port as nat) + "-"@ + dec_rep(
            a.end_port as nat,
        ),
    };
    let has_ip = a.ignore_ports matches Some(ip) && ip@.len() > 0;
    let has_np = a.ignore_processes matches Some(ns) && ns@.len() > 0;
    let ip_part = "ignoring ports: "@ + join_dec_views(
        match a.ignore_ports {
            Some(ip) => ip@,
            None => Seq::empty(),
        },
        ", "@,
    );
    let np_part = "ignoring processes: "@ + join_views(
        views_of(
            match a.ignore_processes {
                Some(ns) => ns@,
                None => Seq::empty(),
            },
        ),
        ", "@,
    );
    if has_ip && has_np {
        base + " ("@ + ip_part + ", "@ + np_part + ")"@
    } else if has_ip {
        base + " ("@ + ip_part + ")"@
    } else if has_np {
        base + " ("@ + np_part + ")"@
    } else {
        base
    }
}

impl Args {
    /// The list of ports to monitor.
    pub fn get_ports_to_monitor(&self) -> (r: Vec<u16>)
        ensures
            r@ == spec_ports_to_monitor(self),
    {
        match &self.ports {
            Some(ps) => {
                let n = ps.len();
                let mut r: Vec<u16> = Vec::new();
                let mut i: usize = 0;
                while i < n
                    invariant
                        0 <= i <= n,
                        n == ps@.len(),
                        r@ =~= ps@.take(i as int),
                    decreases n - i,
                {
                    r.push(ps[i]);
                    i = i + 1;
                }
                proof {
                    assert(ps@.take(n as int) =~= ps@);
                }
                r
            },
            None => {
                let mut r: Vec<u16> = Vec::new();
                if self.start_port > self.end_port {
                    proof {
                        assert(r@ =~= spec_ports_to_monitor(self));
                    }
                    return r;
                }
                let n: usize = (self.end_port - self.start_port) as usize + 1;
                let mut i: usize = 0;
                while i < n
                    invariant
                        0 <= i <= n,
                        self.start_port <= self.end_port,
                        n == self.end_port - self.start_port + 1,
                        r@.len() == i,
                        forall|j: int| 0 <= j < i ==> r@[j] == self.start_port + j,
                    decreases n - i,
                {
                    r.push(self.start_port + (i as u16));
                    i = i + 1;
                }
                proof {
                    assert(r@ =~= spec_ports_to_monitor(self));
                }
                r
            },
        }
    }

    /// The monitored ports as a set, for membership tests.
    pub fn get_ports_set(&self) -> (r: HashSet<u16>)
        ensures
            forall|p: u16|
                #[trigger] r@.contains(p) == spec_ports_to_monitor(self).contains(p),
    {
        let ports = self.get_ports_to_monitor();
        hash_set_of_ports(&ports)
    }

    /// The ignored ports as a set, for membership tests.
    pub fn get_ignore_ports_set(&self) -> (r: HashSet<u16>)
        ensures
            forall|p: u16|
                #[trigger] r@.contains(p) == (match self.ignore_ports {
                    Some(ip) => ip@.contains(p),
                    None => false,
                }),
    {
        match &self.ignore_ports {
            Some(ip) => hash_set_of_ports(ip),
            None => HashSet::new(),
        }
    }

    /// The ignored process names as a set, for membership tests.
    /// What the set holds can be stated only as far as the hash-table
    /// model covers string keys.
    pub fn get_ignore_processes_set(&self) -> (r: HashSet<String>)
        ensures
            vstd::std_specs::hash::obeys_key_model::<String>() ==> forall|n: String|
                #[trigger] r@.contains(n) == (match self.ignore_processes {
                    Some(ns) => ns@.contains(n),
                    None => false,
                }),
    {
        let mut r: HashSet<String> = HashSet::new();
        match &self.ignore_processes {
            Some(ns) => {
                let n = ns.len();
                let mut i: usize = 0;
                while i < n
                    invariant
                        0 <= i <= n,
                        n == ns@.len(),
                        vstd::std_specs::hash::obeys_key_model::<String>() ==> forall|x: String|
                            #[trigger] r@.contains(x) == ns@.take(i as int).contains(x),
                    decreases n - i,
                {
                    let ghost pre = r@;
                    let ghost t0 = ns@.take(i as int);
                    let ghost t1 = ns@.take(i + 1);
                    r.insert(ns[i].clone());
                    proof {
                        if vstd::std_specs::hash::obeys_key_model::<String>() {
                            assert forall|x: String| #[trigger] r@.contains(x) == t1.contains(
                                x,
                            ) by {
                                if x == ns@[i as int] {
                                    assert(t1[i as int] == x);
                                } else {
                                    if pre.contains(x) {
                                        let j = choose|j: int| 0 <= j < t0.len() && t0[j] == x;
                                        assert(t1[j] == x);
                                    }
                                    if t1.contains(x) {
                                        let j = choose|j: int| 0 <= j < t1.len() && t1[j] == x;
                                        assert(t0[j] == x);
                                    }
                                }
                            }
                        }
                    }
                    i = i + 1;
                }
                proof {
                    if vstd::std_specs::hash::obeys_key_model::<String>() {
                        assert forall|x: String| #[trigger]
                            r@.contains(x) == ns@.contains(x) by {
                            assert(ns@.take(n as int) =~= ns@);
                        }
                    }
                }
                r
            },
            None => r,
        }
    }

    /// A description of the port configuration, exclusions included.
    pub fn get_port_description(&self) -> (r: String)
        ensures
            r@ == spec_port_description(self),
    {
        let mut s = match &self.ports {
            Some(ps) => {
                let mut s = String::from_str("specific ports: ");
                let list = join_ports(ps, ", ");
                s.append(list.as_str());
                s
            },
            None => {
                let mut s = String::from_str("port range: ");
                let lo = crate::text::u64_to_string(self.start_port as u64);
                s.append(lo.as_str());
                s.append("-");
                let hi = crate::text::u64_to_string(self.end_port as u64);
                s.append(hi.as_str());
                s
            },
        };
        let has_ip = match &self.ignore_ports {
            Some(ip) => ip.len() > 0,
            None => false,
        };
        let has_np = match &self.ignore_processes {
            Some(ns) => ns.len() > 0,
            None => false,
        };
        if has_ip || has_np {
            s.append(" (");
            if has_ip {
                s.append("ignoring ports: ");
                match &self.ignore_ports {
                    Some(ip) => {
                        let list = join_ports(ip, ", ");
                        s.append(list.as_str());
                    },
                    None => {},
                }
                if has_np {
                    s.append(", ");
                }
            }
            if has_np {
                s.append("ignoring processes: ");
                match &self.ignore_processes {
                    Some(ns) => {
                        let list = crate::text::join_strings(ns, ", ");
                        s.append(list.as_str());
                    },
                    None => {},
                }
            }
            s.append(")");
        }
        s
    }

    /// Check the configuration: `Ok` exactly when no rule is broken,
    /// else the first broken rule's message.
    pub fn validate(&self) -> (r: Result<(), String>)
        ensures
            match r {
                Ok(_) => spec_validate(self) is None,
                Err(m) => spec_validate(self) == Some(m@),
            },
    {
        if self.start_port > self.end_port {
            return Err(String::from_str("Start port cannot be greater than end port"));
        }
        match &self.ports {
            Some(ps) => {
                if ps.len() == 0 {
                    return Err(String::from_str("At least one port must be specified"));
                }
                if has_zero_port(ps) {
                    return Err(String::from_str("Port 0 is not valid"));
                }
            },
            None => {},
        }
        match &self.ignore_ports {
            Some(ip) => {
                if has_zero_port(ip) {
                    return Err(String::from_str("Ignore port 0 is not valid"));
                }
            },
            None => {},
        }
        match &self.ignore_processes {
            Some(ns) => {
                if has_blank_name(ns) {
                    return Err(String::from_str("Ignore process names cannot be empty"));
                }
            },
            None => {},
        }
        Ok(())
    }
}

/// Does the list hold port zero?
fn has_zero_port(v: &Vec<u16>) -> (r: bool)
    ensures
        r == (exists|i: int| 0 <= i < v@.len() && v@[i] == 0),
{
    let n = v.len();
    let mut i: usize = 0;
    while i < n
        invariant
            0 <= i <= n,
            n == v@.len(),
            forall|j: int| 0 <= j < i ==> v@[j] != 0,
        decreases n - i,
    {
        if v[i] == 0 {
            proof {
                assert(0 <= i < v@.len() && v@[i as int] == 0);
            }
            return true;
        }
        i = i + 1;
    }
    false
}

/// Does the list hold a name that is blank once trimmed?
fn has_blank_name(v: &Vec<String>) -> (r: bool)
    ensures
        r == (exists|i: int| 0 <= i < v@.len() && trim_spec(v@[i]@).len() == 0),
{
    let n = v.len();
    let mut i: usize = 0;
    while i < n
        invariant
            0 <= i <= n,
            n == v@.len(),
            forall|j: int| 0 <= j < i ==> trim_spec(v@[j]@).len() != 0,
        decreases n - i,
    {
        let t = crate::text::trim(v[i].as_str());
        if t.as_str().unicode_len() == 0 {
            proof {
                assert(0 <= i < v@.len() && trim_spec(v@[i as int]@).len() == 0);
            }
            return true;
        }
        i = i + 1;
    }
    false
}

/// Collect ports into a hash set.
fn hash_set_of_ports(ports: &Vec<u16>) -> (r: HashSet<u16>)
    ensures
        forall|p: u16| #[trigger] r@.contains(p) == ports@.contains(p),
{
    let mut r: HashSet<u16> = HashSet::new();
    let n = ports.len();
    let mut i: usize = 0;
    while i < n
        invariant
            0 <= i <= n,
            n == ports@.len(),
            forall|p: u16| #[trigger] r@.contains(p) == ports@.take(i as int).contains(p),
        decreases n - i,
    {
        let ghost pre = r@;
        let ghost t0 = ports@.take(i as int);
        let ghost t1 = ports@.take(i + 1);
        r.insert(ports[i]);
        proof {
            assert forall|p: u16| #[trigger] r@.contains(p) == t1.contains(p) by {
                if p == ports@[i as int] {
                    assert(t1[i as int] == p);
                } else {
                    if pre.contains(p) {
                        let j = choose|j: int| 0 <= j < t0.len() && t0[j] == p;
                        assert(t1[j] == p);
                    }
                    if t1.contains(p) {
                        let j = choose|j: int| 0 <= j < t1.len() && t1[j] == p;
                        assert(t0[j] == p);
                    }
                }
            }
        }
        i = i + 1;
    }
    proof {
        assert forall|p: u16| #[trigger]
            r@.contains(p) == ports@.contains(p) by {
            assert(ports@.take(n as int) =~= ports@);
        }
    }
    r
}

/// Render ports joined by a separator.
fn join_ports(ports: &Vec<u16>, sep: &str) -> (r: String)
    ensures
        r@ == join_dec_views(ports@, sep@),
{
    let n = ports.len();
    let mut s = String::new();
    let mut i: usize = 0;
    proof {
        assert(join_dec_views(ports@.take(0), sep@) =~= Seq::<char>::empty());
    }
    while i < n
        invariant
            0 <= i <= n,
            n == ports@.len(),
            s@ == join_dec_views(ports@.take(i as int), sep@),
        decreases n - i,
    {
        if i > 0 {
            s.append(sep);
        }
        let d = crate::text::u64_to_string(ports[i] as u64);
        s.append(d.as_str());
        proof {
            assert(ports@.take(i + 1).drop_last() =~= ports@.take(i as int));
            assert(ports@.take(i + 1).last() == ports@[i as int]);
            if i == 0 {
                assert(s@ =~= join_dec_views(ports@.take(1), sep@));
            }
        }
        i = i + 1;
    }
    proof {
        assert(ports@.take(n as int) =~= ports@);
    }
    s
}

} // verus!
