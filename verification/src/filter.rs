//! The ignore filter: a pure predicate over bindings, applied both at
//! discovery time and at kill time, so that what the user cannot see
//! cannot be killed and the other way round.

use vstd::prelude::*;
use crate::types::{PortBinding, ProcessInfo};
use crate::snapshot::Snapshot;

verus! {

/// The user's exclusions, fixed for one monitoring session: ports that
/// must never be shown or killed, and display names likewise. Name
/// matching is exact and case-sensitive.
pub struct IgnoreConfig {
    pub ignored_ports: Vec<u16>,
    pub ignored_process_names: Vec<String>,
}

impl IgnoreConfig {
    /// Is `p` an ignored port?
    pub open spec fn port_ignored(&self, p: int) -> bool {
        exists|i: int| 0 <= i < self.ignored_ports@.len() && self.ignored_ports@[i] == p
    }

    /// Is `n` an ignored display name?
    pub open spec fn name_ignored(&self, n: Seq<char>) -> bool {
        exists|i: int|
            0 <= i < self.ignored_process_names@.len() && self.ignored_process_names@[i]@ == n
    }

    /// Is the binding excluded, by its port or by its display name?
    pub open spec fn binding_ignored(&self, b: PortBinding) -> bool {
        self.port_ignored(b.port) || self.name_ignored(b.name)
    }

    /// An ignore configuration from the two exclusion lists.
    pub fn new(ignored_ports: Vec<u16>, ignored_process_names: Vec<String>) -> (r: IgnoreConfig)
        ensures
            r.ignored_ports == ignored_ports,
            r.ignored_process_names == ignored_process_names,
    {
        IgnoreConfig { ignored_ports, ignored_process_names }
    }

    /// Decide whether `port` is excluded.
    pub fn check_port(&self, port: u16) -> (r: bool)
        ensures
            r == self.port_ignored(port as int),
    {
        let n = self.ignored_ports.len();
        let mut i: usize = 0;
        while i < n
            invariant
                0 <= i <= n,
                n == self.ignored_ports@.len(),
                forall|j: int| 0 <= j < i ==> self.ignored_ports@[j] != port,
            decreases n - i,
        {
            if self.ignored_ports[i] == port {
                return true;
            }
            i = i + 1;
        }
        false
    }

    /// Decide whether `name` is excluded.
    pub fn check_name(&self, name: &String) -> (r: bool)
        ensures
            r == self.name_ignored(name@),
    {
        let n = self.ignored_process_names.len();
        let mut i: usize = 0;
        while i < n
            invariant
                0 <= i <= n,
                n == self.ignored_process_names@.len(),
                forall|j: int| 0 <= j < i ==> self.ignored_process_names@[j]@ != name@,
            decreases n - i,
        {
            if self.ignored_process_names[i] == *name {
                return true;
            }
            i = i + 1;
        }
        false
    }

    /// Decide whether a binding is excluded.
    pub fn check_binding(&self, e: &ProcessInfo) -> (r: bool)
        ensures
            r == self.binding_ignored(e@),
    {
        self.check_port(e.port) || self.check_name(&e.name)
    }
}

/// The mapping `m` with every ignored binding removed: exclusion keeps
/// the rest of the mapping exactly as it was.
pub open spec fn spec_filter(m: Map<int, PortBinding>, c: &IgnoreConfig) -> Map<int, PortBinding> {
    Map::new(|p: int| m.contains_key(p) && !c.binding_ignored(m[p]), |p: int| m[p])
}

proof fn lemma_spec_filter_insert_fresh(
    m: Map<int, PortBinding>,
    c: &IgnoreConfig,
    p: int,
    b: PortBinding,
)
    requires
        !m.contains_key(p),
        b.port == p,
    ensures
        c.binding_ignored(b) ==> spec_filter(m.insert(p, b), c) == spec_filter(m, c),
        !c.binding_ignored(b) ==> spec_filter(m.insert(p, b), c) == spec_filter(m, c).insert(p, b),
{
    if c.binding_ignored(b) {
        assert(spec_filter(m.insert(p, b), c) =~= spec_filter(m, c));
    } else {
        assert(spec_filter(m.insert(p, b), c) =~= spec_filter(m, c).insert(p, b));
    }
}

/// Remove from `s` every binding the configuration excludes. The
/// result is the same mapping restricted to the bindings that are not
/// ignored; what stays is unchanged.
pub fn filter_snapshot(s: &Snapshot, c: &IgnoreConfig) -> (r: Snapshot)
    requires
        s.wf(),
    ensures
        r.wf(),
        r@ == spec_filter(s@, c),
{
    let ghost sv = s.entries_view();
    let n = s.len();
    let mut r = Snapshot::new();
    let mut i: usize = 0;
    proof {
        assert(spec_filter(crate::snapshot::map_of(sv.take(0)), c) =~= Map::<
            int,
            PortBinding,
        >::empty());
    }
    while i < n
        invariant
            0 <= i <= n,
            n == sv.len(),
            sv == s.entries_view(),
            s.wf(),
            r.wf(),
            r@ == spec_filter(crate::snapshot::map_of(sv.take(i as int)), c),
            forall|k: int|
                #![trigger r.entries_view()[k]]
                0 <= k < r.entries_view().len() ==> exists|j: int|
                    0 <= j < i && r.entries_view()[k] == #[trigger] sv[j],
        decreases n - i,
    {
        let e = s.entry_at(i);
        let ghost pre = sv.take(i as int);
        proof {
            assert(sv.take(i + 1).drop_last() =~= pre);
            assert(sv.take(i + 1).last() == sv[i as int]);
            if crate::snapshot::map_of(pre).contains_key(sv[i as int].port) {
                crate::snapshot::lemma_map_of_dom(pre, sv[i as int].port);
            }
            lemma_spec_filter_insert_fresh(
                crate::snapshot::map_of(pre),
                c,
                sv[i as int].port,
                sv[i as int],
            );
        }
        if !c.check_binding(e) {
            let ghost rv = r.entries_view();
            push_sorted(&mut r, e, Ghost(sv), Ghost(i as int));
            proof {
                assert forall|k: int| #![trigger r.entries_view()[k]]
                    0 <= k < r.entries_view().len() implies exists|j: int|
                    0 <= j < i + 1 && r.entries_view()[k] == #[trigger] sv[j] by {
                    if k < rv.len() {
                        assert(r.entries_view()[k] == rv[k]);
                        let j = choose|j: int| 0 <= j < i && rv[k] == sv[j];
                        assert(r.entries_view()[k] == sv[j]);
                    } else {
                        assert(r.entries_view()[k] == sv[i as int]);
                    }
                }
            }
        }
        i = i + 1;
    }
    proof {
        assert(sv.take(n as int) =~= sv);
    }
    r
}

/// Append an entry whose port is above every port already present.
fn push_sorted(r: &mut Snapshot, e: &ProcessInfo, Ghost(sv): Ghost<Seq<PortBinding>>, Ghost(
    i,
): Ghost<int>)
    requires
        old(r).wf(),
        crate::snapshot::sorted_by_port(sv),
        0 <= i < sv.len(),
        e@ == sv[i],
        forall|k: int|
            #![trigger old(r).entries_view()[k]]
            0 <= k < old(r).entries_view().len() ==> exists|j: int|
                0 <= j < i && old(r).entries_view()[k] == #[trigger] sv[j],
    ensures
        final(r).wf(),
        final(r).entries_view() == old(r).entries_view().push(e@),
        final(r)@ == old(r)@.insert(e@.port, e@),
{
    proof {
        assert forall|k: int| 0 <= k < old(r).entries_view().len() implies old(
            r,
        ).entries_view()[k].port < e@.port by {
            let j = choose|j: int| 0 <= j < i && old(r).entries_view()[k] == sv[j];
        }
    }
    r.push_max(e.duplicate());
}

/// The exclusions hold of the filtered snapshot: no binding it
/// retains carries an ignored port or an ignored display name, an
/// ignored binding of the input is gone, and what it retains is
/// exactly what the input held.
pub proof fn lemma_filter_excludes(m: Map<int, PortBinding>, c: &IgnoreConfig, p: int)
    ensures
        spec_filter(m, c).contains_key(p) ==> !c.binding_ignored(spec_filter(m, c)[p])
            && spec_filter(m, c)[p] == m[p] && m.contains_key(p),
        m.contains_key(p) && c.binding_ignored(m[p]) ==> !spec_filter(m, c).contains_key(p),
{
}

/// Filtering is idempotent: filtering an already-filtered snapshot
/// changes nothing.
pub proof fn lemma_filter_idempotent(m: Map<int, PortBinding>, c: &IgnoreConfig)
    ensures
        spec_filter(spec_filter(m, c), c) == spec_filter(m, c),
{
    assert(spec_filter(spec_filter(m, c), c) =~= spec_filter(m, c));
}

} // verus!
