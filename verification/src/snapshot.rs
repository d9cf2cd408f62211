//! The snapshot store and change detector: the full port-to-process
//! mapping of one scan cycle, compared structurally against the one
//! before it. A scan is published only when the mapping changed.

use vstd::prelude::*;
use crate::types::{PortBinding, ProcessInfo};

verus! {

/// The mapping a sequence of bindings denotes: later entries win on a
/// repeated port, as in the store it models.
pub open spec fn map_of(s: Seq<PortBinding>) -> Map<int, PortBinding>
    decreases s.len(),
{
    if s.len() == 0 {
        Map::empty()
    } else {
        map_of(s.drop_last()).insert(s.last().port, s.last())
    }
}

/// Entries sorted strictly by port: each port appears at most once.
pub open spec fn sorted_by_port(s: Seq<PortBinding>) -> bool {
    forall|i: int, j: int| 0 <= i < j < s.len() ==> s[i].port < s[j].port
}

proof fn lemma_map_of_index(s: Seq<PortBinding>, i: int)
    requires
        sorted_by_port(s),
        0 <= i < s.len(),
    ensures
        map_of(s).contains_key(s[i].port),
        map_of(s)[s[i].port] == s[i],
    decreases s.len(),
{
    if i < s.len() - 1 {
        lemma_map_of_index(s.drop_last(), i);
    }
}

/// A key of the denoted mapping is the port of some entry.
pub proof fn lemma_map_of_dom(s: Seq<PortBinding>, p: int)
    requires
        map_of(s).contains_key(p),
    ensures
        exists|i: int| 0 <= i < s.len() && s[i].port == p,
    decreases s.len(),
{
    if s.len() > 0 {
        if s.last().port == p {
            assert(s[s.len() - 1].port == p);
        } else {
            lemma_map_of_dom(s.drop_last(), p);
            let i = choose|i: int| 0 <= i < s.drop_last().len() && s.drop_last()[i].port == p;
            assert(s[i].port == p);
        }
    }
}

proof fn lemma_map_of_card(s: Seq<PortBinding>)
    requires
        sorted_by_port(s),
    ensures
        map_of(s).dom().finite(),
        map_of(s).dom().len() == s.len(),
    decreases s.len(),
{
    if s.len() > 0 {
        let pre = s.drop_last();
        lemma_map_of_card(pre);
        if map_of(pre).contains_key(s.last().port) {
            lemma_map_of_dom(pre, s.last().port);
            let i = choose|i: int| 0 <= i < pre.len() && pre[i].port == s.last().port;
            assert(s[i].port < s[s.len() - 1].port);
        }
    }
}

/// The full mapping of monitored ports to the process bound to each,
/// as of one scan cycle. Entries are kept sorted by port; the port is
/// the identity of an entry.
pub struct Snapshot {
    entries: Vec<ProcessInfo>,
}

impl View for Snapshot {
    type V = Map<int, PortBinding>;

    /// A snapshot is the mapping from port to binding.
    open spec fn view(&self) -> Map<int, PortBinding> {
        map_of(self.entries_view())
    }
}

impl Snapshot {
    /// The published entries, in ascending port order.
    pub closed spec fn entries_view(&self) -> Seq<PortBinding> {
        self.entries@.map_values(|e: ProcessInfo| e@)
    }

    /// Well-formed: sorted strictly by port, so each port occurs once.
    pub open spec fn wf(&self) -> bool {
        sorted_by_port(self.entries_view())
    }

    /// An empty snapshot: no port is bound.
    pub fn new() -> (r: Snapshot)
        ensures
            r.wf(),
            r@ == Map::<int, PortBinding>::empty(),
            r.entries_view() == Seq::<PortBinding>::empty(),
    {
        let r = Snapshot { entries: Vec::new() };
        proof {
            assert(r.entries_view() =~= Seq::<PortBinding>::empty());
        }
        r
    }

    /// How many ports are bound.
    pub fn len(&self) -> (r: usize)
        ensures
            r == self.entries_view().len(),
    {
        self.entries.len()
    }

    /// Is any port bound?
    pub fn is_empty(&self) -> (r: bool)
        ensures
            r == (self.entries_view().len() == 0),
    {
        self.entries.len() == 0
    }

    /// The entry at position `i` in port order.
    pub fn entry_at(&self, i: usize) -> (r: &ProcessInfo)
        requires
            i < self.entries_view().len(),
        ensures
            r@ == self.entries_view()[i as int],
    {
        &self.entries[i]
    }

    /// The binding of `port`, if the snapshot holds one.
    pub fn get(&self, port: u16) -> (r: Option<&ProcessInfo>)
        requires
            self.wf(),
        ensures
            match r {
                Some(e) => self@.contains_key(port as int) && e@ == self@[port as int] && e@.port
                    == port as int,
                None => !self@.contains_key(port as int),
            },
    {
        let n = self.entries.len();
        let mut i: usize = 0;
        while i < n
            invariant
                0 <= i <= n,
                n == self.entries_view().len(),
                self.wf(),
                forall|j: int| 0 <= j < i ==> self.entries_view()[j].port != port as int,
            decreases n - i,
        {
            if self.entries[i].port == port {
                proof {
                    lemma_map_of_index(self.entries_view(), i as int);
                }
                return Some(&self.entries[i]);
            }
            i = i + 1;
        }
        proof {
            if self@.contains_key(port as int) {
                lemma_map_of_dom(self.entries_view(), port as int);
            }
        }
        None
    }

    /// Record that `e.port` is now held by `e`, replacing any earlier
    /// binding of that port.
    pub fn upsert(&mut self, e: ProcessInfo)
        requires
            old(self).wf(),
        ensures
            final(self).wf(),
            final(self)@ == old(self)@.insert(e.port as int, e@),
    {
        let n = self.entries.len();
        let mut i: usize = 0;
        while i < n
            invariant
                0 <= i <= n,
                n == self.entries_view().len(),
                self.wf(),
                self == old(self),
                forall|j: int| 0 <= j < i ==> self.entries_view()[j].port < e.port as int,
            decreases n - i,
        {
            if self.entries[i].port == e.port {
                let ghost pre = self.entries_view();
                self.entries.set(i, e);
                proof {
                    assert(self.entries_view() =~= pre.update(i as int, e@));
                    lemma_upsert_replace(pre, i as int, e@);
                }
                return ;
            }
            if self.entries[i].port > e.port {
                let ghost pre = self.entries_view();
                self.entries.insert(i, e);
                proof {
                    assert(self.entries_view() =~= pre.insert(i as int, e@));
                    lemma_upsert_fresh(pre, i as int, e@);
                }
                return ;
            }
            i = i + 1;
        }
        let ghost pre = self.entries_view();
        self.entries.push(e);
        proof {
            assert(self.entries_view() =~= pre.insert(pre.len() as int, e@));
            lemma_upsert_fresh(pre, pre.len() as int, e@);
        }
    }

    /// Append an entry whose port lies above every port already held.
    pub fn push_max(&mut self, e: ProcessInfo)
        requires
            old(self).wf(),
            forall|k: int|
                0 <= k < old(self).entries_view().len() ==> old(self).entries_view()[k].port
                    < e@.port,
        ensures
            final(self).wf(),
            final(self).entries_view() == old(self).entries_view().push(e@),
            final(self)@ == old(self)@.insert(e@.port, e@),
    {
        let ghost pre = self.entries_view();
        proof {
            lemma_upsert_fresh(pre, pre.len() as int, e@);
            assert(pre.insert(pre.len() as int, e@) =~= pre.push(e@));
        }
        self.entries.push(e);
        proof {
            assert(self.entries_view() =~= pre.push(e@));
        }
    }

    /// A copy denoting the same mapping.
    pub fn duplicate(&self) -> (r: Snapshot)
        ensures
            r.entries_view() == self.entries_view(),
            r@ == self@,
            r.wf() == self.wf(),
    {
        let n = self.entries.len();
        let mut entries: Vec<ProcessInfo> = Vec::new();
        let mut i: usize = 0;
        while i < n
            invariant
                0 <= i <= n,
                n == self.entries_view().len(),
                entries@.len() == i,
                forall|j: int| 0 <= j < i ==> entries@[j]@ == self.entries_view()[j],
            decreases n - i,
        {
            entries.push(self.entries[i].duplicate());
            i = i + 1;
        }
        let r = Snapshot { entries };
        proof {
            assert(r.entries_view() =~= self.entries_view());
        }
        r
    }

    /// Structural comparison: do the two snapshots denote the same
    /// mapping of ports to bindings? This is the change criterion:
    /// same keys and same values mean unchanged, however either
    /// snapshot was built.
    pub fn same_as(&self, other: &Snapshot) -> (r: bool)
        requires
            self.wf(),
            other.wf(),
        ensures
            r == (self@ == other@),
    {
        let n = self.entries.len();
        let m = other.entries.len();
        if n != m {
            proof {
                lemma_map_of_card(self.entries_view());
                lemma_map_of_card(other.entries_view());
            }
            return false;
        }
        let mut i: usize = 0;
        while i < n
            invariant
                0 <= i <= n,
                n == self.entries_view().len(),
                n == other.entries_view().len(),
                self.wf(),
                other.wf(),
                forall|j: int| 0 <= j < i ==> self.entries_view()[j] == other.entries_view()[j],
            decreases n - i,
        {
            let a = &self.entries[i];
            let b = &other.entries[i];
            if a.port != b.port {
                proof {
                    lemma_mismatched_port(self.entries_view(), other.entries_view(), i as int);
                }
                return false;
            }
            if !(*a == *b) {
                proof {
                    lemma_map_of_index(self.entries_view(), i as int);
                    lemma_map_of_index(other.entries_view(), i as int);
                }
                return false;
            }
            i = i + 1;
        }
        proof {
            assert(self.entries_view() =~= other.entries_view());
        }
        true
    }
}

proof fn lemma_upsert_replace(s: Seq<PortBinding>, i: int, e: PortBinding)
    requires
        sorted_by_port(s),
        0 <= i < s.len(),
        s[i].port == e.port,
    ensures
        sorted_by_port(s.update(i, e)),
        map_of(s.update(i, e)) == map_of(s).insert(e.port, e),
{
    let t = s.update(i, e);
    assert(sorted_by_port(t));
    assert forall|p: int| map_of(t).contains_key(p) <==> map_of(s).insert(
        e.port,
        e,
    ).contains_key(p) by {
        if map_of(t).contains_key(p) {
            lemma_map_of_dom(t, p);
            let k = choose|k: int| 0 <= k < t.len() && t[k].port == p;
            if k == i {
                assert(map_of(s).insert(e.port, e).contains_key(p));
            } else {
                lemma_map_of_index(s, k);
            }
        }
        if map_of(s).insert(e.port, e).contains_key(p) {
            if p == e.port {
                lemma_map_of_index(t, i);
            } else {
                lemma_map_of_dom(s, p);
                let k = choose|k: int| 0 <= k < s.len() && s[k].port == p;
                assert(t[k].port == p);
                lemma_map_of_index(t, k);
            }
        }
    }
    assert forall|p: int| #[trigger]
        map_of(t).contains_key(p) implies map_of(t)[p] == map_of(s).insert(e.port, e)[p] by {
        lemma_map_of_dom(t, p);
        let k = choose|k: int| 0 <= k < t.len() && t[k].port == p;
        lemma_map_of_index(t, k);
        if k == i {
        } else {
            lemma_map_of_index(s, k);
        }
    }
    assert(map_of(t) =~= map_of(s).insert(e.port, e));
}

proof fn lemma_upsert_fresh(s: Seq<PortBinding>, i: int, e: PortBinding)
    requires
        sorted_by_port(s),
        0 <= i <= s.len(),
        forall|j: int| 0 <= j < i ==> s[j].port < e.port,
        forall|j: int| i <= j < s.len() ==> s[j].port > e.port,
    ensures
        sorted_by_port(s.insert(i, e)),
        map_of(s.insert(i, e)) == map_of(s).insert(e.port, e),
{
    let t = s.insert(i, e);
    assert forall|a: int, b: int| 0 <= a < b < t.len() implies t[a].port < t[b].port by {
        if a < i && b > i {
            assert(t[a] == s[a] && t[b] == s[b - 1]);
        } else if a == i {
            assert(t[b] == s[b - 1]);
        } else if b == i {
            assert(t[a] == s[a]);
        } else if b < i {
            assert(t[a] == s[a] && t[b] == s[b]);
        } else {
            assert(t[a] == s[a - 1] && t[b] == s[b - 1]);
        }
    }
    assert forall|p: int| map_of(t).contains_key(p) <==> map_of(s).insert(
        e.port,
        e,
    ).contains_key(p) by {
        if map_of(t).contains_key(p) {
            lemma_map_of_dom(t, p);
            let k = choose|k: int| 0 <= k < t.len() && t[k].port == p;
            if k == i {
            } else if k < i {
                lemma_map_of_index(s, k);
            } else {
                lemma_map_of_index(s, k - 1);
                assert(t[k] == s[k - 1]);
            }
        }
        if map_of(s).insert(e.port, e).contains_key(p) {
            if p == e.port {
                lemma_map_of_index(t, i);
            } else {
                lemma_map_of_dom(s, p);
                let k = choose|k: int| 0 <= k < s.len() && s[k].port == p;
                if k < i {
                    assert(t[k].port == p);
                    lemma_map_of_index(t, k);
                } else {
                    assert(t[k + 1].port == p);
                    lemma_map_of_index(t, k + 1);
                }
            }
        }
    }
    assert forall|p: int| #[trigger]
        map_of(t).contains_key(p) implies map_of(t)[p] == map_of(s).insert(e.port, e)[p] by {
        lemma_map_of_dom(t, p);
        let k = choose|k: int| 0 <= k < t.len() && t[k].port == p;
        lemma_map_of_index(t, k);
        if k == i {
        } else if k < i {
            lemma_map_of_index(s, k);
        } else {
            lemma_map_of_index(s, k - 1);
            assert(t[k] == s[k - 1]);
        }
    }
    assert(map_of(t) =~= map_of(s).insert(e.port, e));
}

proof fn lemma_mismatched_port(s: Seq<PortBinding>, t: Seq<PortBinding>, i: int)
    requires
        sorted_by_port(s),
        sorted_by_port(t),
        s.len() == t.len(),
        0 <= i < s.len(),
        forall|j: int| 0 <= j < i ==> s[j] == t[j],
        s[i].port != t[i].port,
    ensures
        map_of(s) != map_of(t),
{
    if s[i].port < t[i].port {
        lemma_one_sided_miss(s, t, i);
    } else {
        lemma_one_sided_miss(t, s, i);
    }
}

proof fn lemma_one_sided_miss(s: Seq<PortBinding>, t: Seq<PortBinding>, i: int)
    requires
        sorted_by_port(s),
        sorted_by_port(t),
        s.len() == t.len(),
        0 <= i < s.len(),
        forall|j: int| 0 <= j < i ==> s[j] == t[j],
        s[i].port < t[i].port,
    ensures
        map_of(s) != map_of(t),
{
    let p = s[i].port;
    lemma_map_of_index(s, i);
    if map_of(t).contains_key(p) {
        lemma_map_of_dom(t, p);
        let k = choose|k: int| 0 <= k < t.len() && t[k].port == p;
        if k < i {
            assert(t[k] == s[k]);
            assert(s[k].port < s[i].port);
        } else {
            assert(t[i].port <= t[k].port);
        }
    }
}

/// One publication: a complete replacement snapshot and its size.
pub struct ProcessUpdate {
    pub processes: Snapshot,
    pub count: usize,
}

impl ProcessUpdate {
    /// Wrap a snapshot for publication.
    pub fn new(processes: Snapshot) -> (r: ProcessUpdate)
        ensures
            r.processes == processes,
            r.count == processes.entries_view().len(),
    {
        let count = processes.len();
        ProcessUpdate { processes, count }
    }
}

/// Holds the last-published snapshot and decides, each cycle, whether
/// the new scan differs from it as a mapping.
pub struct ChangeDetector {
    retained: Snapshot,
}

impl ChangeDetector {
    /// The mapping of the last-published snapshot.
    pub closed spec fn retained_map(&self) -> Map<int, PortBinding> {
        self.retained@
    }

    /// The retained snapshot is well-formed.
    pub closed spec fn wf(&self) -> bool {
        self.retained.wf()
    }

    /// A detector that has published nothing: it retains the empty
    /// mapping, so the first non-empty scan is a change.
    pub fn new() -> (r: ChangeDetector)
        ensures
            r.wf(),
            r.retained_map() == Map::<int, PortBinding>::empty(),
    {
        ChangeDetector { retained: Snapshot::new() }
    }

    /// Read access to the retained snapshot, for display.
    pub fn current(&self) -> (r: &Snapshot)
        ensures
            r@ == self.retained_map(),
            self.wf() ==> r.wf(),
    {
        &self.retained
    }

    /// Compare one scan against the retained snapshot. Publishes
    /// exactly when the two differ as mappings: then the scan replaces
    /// the retained snapshot and is handed back for delivery. An
    /// unchanged scan is dropped and nothing is retained anew.
    pub fn observe(&mut self, scan: Snapshot) -> (r: Option<ProcessUpdate>)
        requires
            old(self).wf(),
            scan.wf(),
        ensures
            final(self).wf(),
            scan@ == old(self).retained_map() ==> r is None && final(self).retained_map() == old(
                self,
            ).retained_map(),
            scan@ != old(self).retained_map() ==> match r {
                Some(u) => u.processes@ == scan@ && u.processes.wf() && u.count
                    == scan.entries_view().len() && final(self).retained_map() == scan@,
                None => false,
            },
    {
        if self.retained.same_as(&scan) {
            None
        } else {
            self.retained = scan.duplicate();
            Some(ProcessUpdate::new(scan))
        }
    }
}

} // verus!
