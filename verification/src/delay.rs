//! Artificial-latency injector: a scheduled FIFO queue.
//!
//! Each enqueued item is stamped with a delivery time of
//! `max(last_scheduled_time, now + delay)`; the max keeps the queue FIFO
//! even while the delay setting changes between enqueues. Items leave the
//! front once their delivery time has passed.

use vstd::prelude::*;

verus! {

/// A queue of items, each held back until its scheduled delivery time.
pub struct DelayQueue<T> {
    q: Vec<(u64, T)>,
    last_scheduled_at: Option<u64>,
}

/// `now + delay_ms`, in microseconds, saturating at `u64::MAX`.
pub open spec fn spec_deadline(now_us: u64, delay_ms: u32) -> u64 {
    if now_us + (delay_ms as int) * 1000 > u64::MAX {
        u64::MAX
    } else {
        (now_us + (delay_ms as int) * 1000) as u64
    }
}

impl<T> DelayQueue<T> {
    /// Delivery times never decrease along the queue, and no queued item
    /// is scheduled later than the most recent scheduling decision.
    pub closed spec fn wf(self) -> bool {
        &&& forall|i: int, j: int|
            0 <= i <= j < self.q@.len() ==> (#[trigger] self.q@[i]).0 <= (#[trigger] self.q@[j]).0
        &&& self.q@.len() > 0 ==> (self.last_scheduled_at matches Some(at) && self.q@[self.q@.len()
            - 1].0 <= at)
    }

    /// The queued items with their delivery times, front first.
    pub closed spec fn view_entries(self) -> Seq<(u64, T)> {
        self.q@
    }

    /// The delivery time the next `schedule` must not undercut.
    pub closed spec fn spec_floor(self) -> u64 {
        match self.last_scheduled_at {
            Some(at) => at,
            None => 0,
        }
    }

    /// An empty queue.
    pub fn new() -> (r: DelayQueue<T>)
        ensures
            r.wf(),
            r.view_entries() =~= Seq::<(u64, T)>::empty(),
            r.spec_floor() == 0,
    {
        DelayQueue { q: Vec::new(), last_scheduled_at: None }
    }

    /// How many items are queued.
    pub fn len(&self) -> (r: usize)
        ensures
            r == self.view_entries().len(),
    {
        self.q.len()
    }

    /// Drops every queued item and forgets the scheduling floor.
    pub fn clear(&mut self)
        ensures
            final(self).wf(),
            final(self).view_entries() =~= Seq::<(u64, T)>::empty(),
            final(self).spec_floor() == 0,
    {
        self.q.clear();
        self.last_scheduled_at = None;
    }

    /// Enqueues `item` at time `now_us` under the current delay setting.
    /// Its delivery time is `now + delay`, pushed later if needed so it
    /// does not overtake anything scheduled before it.
    pub fn schedule(&mut self, now_us: u64, delay_ms: u32, item: T)
        requires
            old(self).wf(),
        ensures
            final(self).wf(),
            final(self).view_entries() == old(self).view_entries().push(
                (final(self).spec_floor(), item),
            ),
            final(self).spec_floor() == if spec_deadline(now_us, delay_ms) > old(
                self,
            ).spec_floor() {
                spec_deadline(now_us, delay_ms)
            } else {
                old(self).spec_floor()
            },
    {
        let extra = (delay_ms as u64) * 1000;
        let desired = if now_us > u64::MAX - extra {
            u64::MAX
        } else {
            now_us + extra
        };
        let at = match self.last_scheduled_at {
            Some(prev) => if prev > desired {
                prev
            } else {
                desired
            },
            None => desired,
        };
        self.last_scheduled_at = Some(at);
        self.q.push((at, item));
    }

    /// Hands out the front item if its delivery time has passed.
    pub fn pop_due(&mut self, now_us: u64) -> (r: Option<T>)
        requires
            old(self).wf(),
        ensures
            final(self).wf(),
            final(self).spec_floor() == old(self).spec_floor(),
            old(self).view_entries().len() == 0 ==> r is None && *final(self) == *old(self),
            old(self).view_entries().len() > 0 && old(self).view_entries()[0].0 > now_us ==> r
                is None && *final(self) == *old(self),
            old(self).view_entries().len() > 0 && old(self).view_entries()[0].0 <= now_us ==> r
                == Some(old(self).view_entries()[0].1) && final(self).view_entries() == old(
                self,
            ).view_entries().drop_first(),
    {
        if self.q.len() == 0 {
            return None;
        }
        let deliver_at = self.q[0].0;
        if deliver_at > now_us {
            return None;
        }
        let (_, item) = self.q.remove(0);
        proof {
            assert(self.q@ =~= old(self).q@.drop_first());
        }
        Some(item)
    }
}

} // verus!
