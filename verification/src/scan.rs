//! The enumeration side of the monitor: how the provider's
//! line-oriented output is read into bindings, and how one scan
//! cycle's snapshot is assembled from them.
//!
//! The provider's text contract: each result line carries at least a
//! process-name field, a process-id field, and a local-address field
//! whose trailing colon-segment is the bound port. Malformed lines
//! are skipped, never fatal.

use vstd::prelude::*;
use vstd::string::*;
use crate::text::{
    all_digits,
    join_dec_views,
    dec_rep,
    dec_val,
    suffix_after_last,
    tokens_of,
    trim_spec,
    trim_matching_spec,
    strip_trailing,
    fields_of,
};
use crate::types::{PortBinding, ProcessInfo};
use crate::snapshot::Snapshot;
use crate::filter::IgnoreConfig;

verus! {

/// What one well-formed provider line denotes: the owning process
/// name, its pid, and the bound port.
pub ghost struct RawBinding {
    pub name: Seq<char>,
    pub pid: int,
    pub port: int,
}

/// A digit field that denotes a value no greater than `max`.
pub open spec fn field_fits(s: Seq<char>, max: int) -> bool {
    all_digits(s) && dec_val(s) <= max
}

/// The binding a long-format provider line denotes, if it is well
/// formed: at least nine whitespace-separated fields, the name first,
/// the pid second, and the port as the trailing colon-segment of the
/// ninth. Anything else is a malformed line and denotes nothing.
pub open spec fn spec_parse_provider_line(l: Seq<char>) -> Option<RawBinding> {
    let ts = tokens_of(l);
    if ts.len() >= 9 && field_fits(ts[1], i32::MAX as int) && field_fits(
        suffix_after_last(ts[8], ':'),
        u16::MAX as int,
    ) {
        Some(
            RawBinding {
                name: ts[0],
                pid: dec_val(ts[1]) as int,
                port: dec_val(suffix_after_last(ts[8], ':')) as int,
            },
        )
    } else {
        None
    }
}

/// Read one line of the long provider listing. A well-formed line
/// yields a binding whose command and display name are the provider's
/// name field; a malformed line yields nothing and is skipped.
pub fn parse_provider_line(line: &str) -> (r: Option<ProcessInfo>)
    ensures
        match (r, spec_parse_provider_line(line@)) {
            (Some(e), Some(b)) => e@.pid == b.pid && e@.port == b.port && e@.command == b.name
                && e@.name == b.name && e@.container_id is None && e@.container_name is None,
            (None, None) => true,
            _ => false,
        },
{
    let ts = crate::text::tokenize(line);
    if ts.len() < 9 {
        return None;
    }
    let pid = match crate::text::parse_i32(ts[1].as_str()) {
        Some(p) => p,
        None => { return None },
    };
    let port_field = crate::text::suffix_after_last_char(ts[8].as_str(), ':');
    let port = match crate::text::parse_u16(port_field.as_str()) {
        Some(p) => p,
        None => { return None },
    };
    let name = ts[0].clone();
    let command = ts[0].clone();
    Some(
        ProcessInfo {
            pid,
            port,
            command,
            name,
            container_id: None,
            container_name: None,
        },
    )
}

/// The pid and port a netstat-style line denotes, if well formed: at
/// least five fields, the port as the trailing colon-segment of the
/// second, the pid in the fifth.
pub open spec fn spec_parse_netstat_line(l: Seq<char>) -> Option<(int, int)> {
    let ts = tokens_of(l);
    if ts.len() >= 5 && field_fits(ts[4], i32::MAX as int) && field_fits(
        suffix_after_last(ts[1], ':'),
        u16::MAX as int,
    ) {
        Some((dec_val(ts[4]) as int, dec_val(suffix_after_last(ts[1], ':')) as int))
    } else {
        None
    }
}

/// Read one line of a netstat-style listing: the pid and the locally
/// bound port, or nothing for a malformed line.
pub fn parse_netstat_line(line: &str) -> (r: Option<(i32, u16)>)
    ensures
        match (r, spec_parse_netstat_line(line@)) {
            (Some((pid, port)), Some(b)) => pid == b.0 && port == b.1,
            (None, None) => true,
            _ => false,
        },
{
    let ts = crate::text::tokenize(line);
    if ts.len() < 5 {
        return None;
    }
    let pid = match crate::text::parse_i32(ts[4].as_str()) {
        Some(p) => p,
        None => { return None },
    };
    let port_field = crate::text::suffix_after_last_char(ts[1].as_str(), ':');
    let port = match crate::text::parse_u16(port_field.as_str()) {
        Some(p) => p,
        None => { return None },
    };
    Some((pid, port))
}

/// The process name a tasklist CSV line denotes: the first
/// comma-separated field with its quotes removed, and beside it the
/// display form without a trailing `.exe`.
pub open spec fn spec_parse_tasklist_name(l: Seq<char>) -> (Seq<char>, Seq<char>) {
    let raw = trim_matching_spec(fields_of(l, ',')[0], '"');
    (raw, strip_trailing(raw, ".exe"@))
}

/// Read the process name out of one tasklist CSV line: the quoted
/// first field, and its display form without the executable suffix.
pub fn parse_tasklist_name(line: &str) -> (r: (String, String))
    ensures
        r.0@ == spec_parse_tasklist_name(line@).0,
        r.1@ == spec_parse_tasklist_name(line@).1,
{
    let fields = crate::text::split_on(line, ',');
    proof {
        assert(fields@[0]@ == crate::text::views_of(fields@)[0]);
    }
    let raw = crate::text::trim_matching(fields[0].as_str(), '"');
    let display = crate::text::strip_trailing_str(raw.as_str(), ".exe");
    (raw, display)
}

/// The pid a short provider listing denotes: its whole output,
/// trimmed, as one decimal field; empty output means no process.
pub open spec fn spec_parse_pid_output(out: Seq<char>) -> Option<int> {
    let t = trim_spec(out);
    if t.len() > 0 && field_fits(t, i32::MAX as int) {
        Some(dec_val(t) as int)
    } else {
        None
    }
}

/// Read the pid-only output of the short provider query (the whole
/// output trimmed); `None` when it is empty or not a pid.
pub fn parse_pid_output(out: &str) -> (r: Option<i32>)
    ensures
        match (r, spec_parse_pid_output(out@)) {
            (Some(pid), Some(p)) => pid == p,
            (None, None) => true,
            _ => false,
        },
{
    let t = crate::text::trim(out);
    if t.as_str().unicode_len() == 0 {
        return None;
    }
    crate::text::parse_i32(t.as_str())
}

/// The identity a lookup result denotes: the command is the trimmed
/// lookup output when the lookup succeeded and `"unknown"` otherwise;
/// the display name is the basename of the command.
pub open spec fn spec_resolve_identity(ok: bool, out: Seq<char>) -> (Seq<char>, Seq<char>) {
    let command = if ok {
        trim_spec(out)
    } else {
        "unknown"@
    };
    (command, suffix_after_last(command, '/'))
}

/// Resolve a process identity from the lookup's outcome. Lookup
/// failure degrades to `"unknown"`, never to a dropped binding.
pub fn resolve_identity(ok: bool, out: &str) -> (r: (String, String))
    ensures
        r.0@ == spec_resolve_identity(ok, out@).0,
        r.1@ == spec_resolve_identity(ok, out@).1,
{
    let command = if ok {
        crate::text::trim(out)
    } else {
        String::from_str("unknown")
    };
    let name = crate::text::suffix_after_last_char(command.as_str(), '/');
    (command, name)
}

/// Does the list of requested ports hold `p`?
pub open spec fn requested_contains(req: Seq<u16>, p: int) -> bool {
    exists|i: int| 0 <= i < req.len() && req[i] == p
}

/// Decide whether `p` was among the requested ports.
pub fn port_requested(req: &Vec<u16>, p: u16) -> (r: bool)
    ensures
        r == requested_contains(req@, p as int),
{
    let n = req.len();
    let mut i: usize = 0;
    while i < n
        invariant
            0 <= i <= n,
            n == req@.len(),
            forall|j: int| 0 <= j < i ==> req@[j] != p,
        decreases n - i,
    {
        if req[i] == p {
            return true;
        }
        i = i + 1;
    }
    false
}

/// The snapshot a sequence of parsed bindings denotes, once held
/// against the requested ports and the exclusions: a binding is kept
/// only if its port was asked for and nothing ignores it; on a
/// repeated port the later binding wins.
pub open spec fn spec_build(
    rs: Seq<PortBinding>,
    req: Seq<u16>,
    c: &IgnoreConfig,
) -> Map<int, PortBinding>
    decreases rs.len(),
{
    if rs.len() == 0 {
        Map::empty()
    } else {
        let m = spec_build(rs.drop_last(), req, c);
        let b = rs.last();
        if requested_contains(req, b.port) && !c.binding_ignored(b) {
            m.insert(b.port, b)
        } else {
            m
        }
    }
}

/// Assemble one cycle's snapshot from the parsed provider records.
/// Spurious ports (inside a collapsed query range but never asked
/// for) are dropped, and the exclusions are applied before
/// publication, so no ignored binding is ever constructed into a
/// snapshot.
pub fn build_snapshot(records: &Vec<ProcessInfo>, requested: &Vec<u16>, c: &IgnoreConfig) -> (r:
    Snapshot)
    ensures
        r.wf(),
        r@ == spec_build(records@.map_values(|e: ProcessInfo| e@), requested@, c),
{
    let ghost rs = records@.map_values(|e: ProcessInfo| e@);
    let n = records.len();
    let mut r = Snapshot::new();
    let mut i: usize = 0;
    while i < n
        invariant
            0 <= i <= n,
            n == rs.len(),
            rs == records@.map_values(|e: ProcessInfo| e@),
            r.wf(),
            r@ == spec_build(rs.take(i as int), requested@, c),
        decreases n - i,
    {
        let e = &records[i];
        proof {
            assert(rs.take(i + 1).drop_last() =~= rs.take(i as int));
            assert(rs.take(i + 1).last() == rs[i as int]);
        }
        if port_requested(requested, e.port) && !c.check_binding(e) {
            r.upsert(e.duplicate());
        }
        i = i + 1;
    }
    proof {
        assert(rs.take(n as int) =~= rs);
    }
    r
}

/// What the assembled snapshot holds: every kept binding was
/// requested, none is ignored, each sits under its own port, and
/// every kept binding came from the records.
pub proof fn lemma_build_snapshot_props(
    rs: Seq<PortBinding>,
    req: Seq<u16>,
    c: &IgnoreConfig,
    p: int,
)
    requires
        spec_build(rs, req, c).contains_key(p),
    ensures
        requested_contains(req, p),
        !c.binding_ignored(spec_build(rs, req, c)[p]),
        spec_build(rs, req, c)[p].port == p,
        exists|i: int| 0 <= i < rs.len() && rs[i] == spec_build(rs, req, c)[p],
    decreases rs.len(),
{
    if rs.len() > 0 {
        let m = spec_build(rs.drop_last(), req, c);
        let b = rs.last();
        if requested_contains(req, b.port) && !c.binding_ignored(b) && b.port == p {
            assert(rs[rs.len() - 1] == spec_build(rs, req, c)[p]);
        } else {
            lemma_build_snapshot_props(rs.drop_last(), req, c, p);
            let i = choose|i: int| 0 <= i < rs.drop_last().len() && rs.drop_last()[i] == m[p];
            assert(rs[i] == spec_build(rs, req, c)[p]);
        }
    }
}

/// The port specification handed to the provider: up to ten ports as
/// an explicit comma list, more collapsed to the single range from
/// the least to the greatest.
pub open spec fn spec_port_spec(ports: Seq<u16>) -> Seq<char> {
    if ports.len() <= 10 {
        join_dec_views(ports, seq![','])
    } else {
        dec_rep(seq_min_port(ports) as nat) + seq!['-'] + dec_rep(seq_max_port(ports) as nat)
    }
}

/// The least port in a non-empty list.
pub open spec fn seq_min_port(ports: Seq<u16>) -> int
    recommends
        ports.len() > 0,
    decreases ports.len(),
{
    if ports.len() <= 1 {
        ports[0] as int
    } else if ports.last() as int <= seq_min_port(ports.drop_last()) {
        ports.last() as int
    } else {
        seq_min_port(ports.drop_last())
    }
}

/// The greatest port in a non-empty list.
pub open spec fn seq_max_port(ports: Seq<u16>) -> int
    recommends
        ports.len() > 0,
    decreases ports.len(),
{
    if ports.len() <= 1 {
        ports[0] as int
    } else if ports.last() as int >= seq_max_port(ports.drop_last()) {
        ports.last() as int
    } else {
        seq_max_port(ports.drop_last())
    }
}

/// Render the ports for one provider query: a comma list for up to
/// ten ports, otherwise the collapsed min-max range.
pub fn build_port_spec(ports: &Vec<u16>) -> (r: String)
    requires
        ports@.len() > 0,
    ensures
        r@ == spec_port_spec(ports@),
{
    let n = ports.len();
    if n <= 10 {
        let mut s = String::new();
        let mut i: usize = 0;
        proof {
            assert(join_dec_views(ports@.take(0), seq![',']) =~= Seq::<char>::empty());
        }
        while i < n
            invariant
                0 <= i <= n,
                n == ports@.len(),
                s@ == join_dec_views(ports@.take(i as int), seq![',']),
            decreases n - i,
        {
            if i > 0 {
                s.append(",");
                proof {
                    reveal_strlit(",");
                    assert((",")@ =~= seq![',']);
                }
            }
            let d = crate::text::u64_to_string(ports[i] as u64);
            s.append(d.as_str());
            proof {
                assert(ports@.take(i + 1).drop_last() =~= ports@.take(i as int));
                assert(ports@.take(i + 1).last() == ports@[i as int]);
                if i == 0 {
                    assert(s@ =~= join_dec_views(ports@.take(1), seq![',']));
                }
            }
            i = i + 1;
        }
        proof {
            assert(ports@.take(n as int) =~= ports@);
        }
        s
    } else {
        let mut lo: u16 = ports[0];
        let mut hi: u16 = ports[0];
        let mut i: usize = 1;
        proof {
            assert(ports@.take(1).len() == 1);
        }
        while i < n
            invariant
                1 <= i <= n,
                n == ports@.len(),
                lo as int == seq_min_port(ports@.take(i as int)),
                hi as int == seq_max_port(ports@.take(i as int)),
            decreases n - i,
        {
            proof {
                assert(ports@.take(i + 1).drop_last() =~= ports@.take(i as int));
                assert(ports@.take(i + 1).last() == ports@[i as int]);
            }
            if ports[i] < lo {
                lo = ports[i];
            }
            if ports[i] > hi {
                hi = ports[i];
            }
            i = i + 1;
        }
        proof {
            assert(ports@.take(n as int) =~= ports@);
        }
        let mut s = crate::text::u64_to_string(lo as u64);
        s.append("-");
        let d = crate::text::u64_to_string(hi as u64);
        s.append(d.as_str());
        proof {
            reveal_strlit("-");
            assert(("-")@ =~= seq!['-']);
        }
        s
    }
}

} // verus!
