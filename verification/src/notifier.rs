//! The notifier: a bounded queue of pending snapshot publications.
//! Publications keep generation order; a full queue drops its oldest
//! unread publication rather than stalling the scan loop, so a slow
//! consumer is guaranteed the newest surviving snapshots, not every
//! intermediate one.

use vstd::prelude::*;
use crate::snapshot::ProcessUpdate;
use crate::types::PortBinding;

verus! {

/// The pending publications, oldest first, each as the mapping it
/// carries.
pub open spec fn pending_maps(q: Seq<ProcessUpdate>) -> Seq<Map<int, PortBinding>> {
    q.map_values(|u: ProcessUpdate| u.processes@)
}

/// A bounded, non-blocking buffer of snapshot publications for one
/// consumer.
pub struct Notifier {
    queue: Vec<ProcessUpdate>,
    capacity: usize,
}

impl Notifier {
    /// The mappings waiting to be consumed, oldest first.
    pub closed spec fn pending(&self) -> Seq<Map<int, PortBinding>> {
        pending_maps(self.queue@)
    }

    /// The fixed bound the notifier was created with.
    pub closed spec fn bound(&self) -> int {
        self.capacity as int
    }

    /// Never more pending than the bound allows.
    pub open spec fn wf(&self) -> bool {
        self.pending().len() <= self.bound()
    }

    /// An empty notifier holding up to `capacity` publications.
    pub fn new(capacity: usize) -> (r: Notifier)
        requires
            capacity > 0,
        ensures
            r.wf(),
            r.bound() == capacity as int,
            r.pending() == Seq::<Map<int, PortBinding>>::empty(),
    {
        let r = Notifier { queue: Vec::new(), capacity };
        proof {
            assert(r.pending() =~= Seq::<Map<int, PortBinding>>::empty());
        }
        r
    }

    /// How many publications are waiting.
    pub fn backlog(&self) -> (r: usize)
        ensures
            r == self.pending().len(),
    {
        self.queue.len()
    }

    /// Queue one publication. When the queue is full, the oldest
    /// unread publication is dropped to make room: the scan loop
    /// never stalls waiting for the consumer, and the newest
    /// publications survive in order.
    pub fn publish(&mut self, update: ProcessUpdate)
        requires
            old(self).wf(),
            old(self).bound() > 0,
        ensures
            final(self).wf(),
            final(self).bound() == old(self).bound(),
            old(self).pending().len() < old(self).bound() ==> final(self).pending() == old(
                self,
            ).pending().push(update.processes@),
            old(self).pending().len() == old(self).bound() ==> final(self).pending() == old(
                self,
            ).pending().drop_first().push(update.processes@),
    {
        let ghost pre = self.queue@;
        if self.queue.len() == self.capacity {
            let _oldest = self.queue.remove(0);
            proof {
                assert(self.queue@ =~= pre.drop_first());
                assert(pending_maps(pre.drop_first()) =~= pending_maps(pre).drop_first());
            }
        }
        let ghost mid = self.queue@;
        self.queue.push(update);
        proof {
            assert(pending_maps(mid.push(update)) =~= pending_maps(mid).push(update.processes@));
        }
    }

    /// Hand the oldest pending publication to the consumer, if one is
    /// waiting.
    pub fn take_next(&mut self) -> (r: Option<ProcessUpdate>)
        requires
            old(self).wf(),
        ensures
            final(self).wf(),
            final(self).bound() == old(self).bound(),
            old(self).pending().len() == 0 ==> r is None && final(self).pending() == old(
                self,
            ).pending(),
            old(self).pending().len() > 0 ==> match r {
                Some(u) => u.processes@ == old(self).pending().first() && final(self).pending()
                    == old(self).pending().drop_first(),
                None => false,
            },
    {
        if self.queue.len() == 0 {
            return None;
        }
        let ghost pre = self.queue@;
        let u = self.queue.remove(0);
        proof {
            assert(self.queue@ =~= pre.drop_first());
            assert(pending_maps(pre.drop_first()) =~= pending_maps(pre).drop_first());
        }
        Some(u)
    }
}

} // verus!
