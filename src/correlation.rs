use std::collections::HashMap;
use vstd::prelude::*;

verus! {

broadcast use vstd::std_specs::hash::group_hash_axioms;

/// Where a frame read from a subprocess goes.
pub enum Delivery<W> {
    /// The frame answers a pending request: hand it to this waiter.
    Reply(W),
    /// The frame has no id, or one that nothing waits for: it is a notification.
    Notification,
}

/// Matches replies to the requests that caused them, by numeric id.
///
/// Ids come from a counter that starts at 1 and only grows, so an id is
/// issued at most once in the lifetime of a table.
pub struct PendingTable<W> {
    next_id: i64,
    pending: HashMap<i64, W>,
}

impl<W> PendingTable<W> {
    /// The id that the next request will get.
    pub closed spec fn next(&self) -> int {
        self.next_id as int
    }

    /// The waiters of the requests that have not been answered, by id.
    pub closed spec fn waiters(&self) -> Map<i64, W> {
        self.pending@
    }

    /// Every pending id was issued: it lies below the next id, which is positive.
    pub closed spec fn wf(&self) -> bool {
        &&& 1 <= self.next_id
        &&& forall|k: i64| #[trigger] self.pending@.contains_key(k) ==> 1 <= k < self.next_id
    }

    /// The next id of a well-formed table lies in `1..=i64::MAX`.
    pub proof fn lemma_next_in_range(&self)
        requires
            self.wf(),
        ensures
            1 <= self.next() <= i64::MAX,
    {
    }

    /// An empty table whose first id is 1.
    pub fn new() -> (r: Self)
        ensures
            r.wf(),
            r.next() == 1,
            r.waiters() == Map::<i64, W>::empty(),
    {
        PendingTable { next_id: 1, pending: HashMap::new() }
    }

    /// Takes the next id, or `None` once the counter has reached `i64::MAX`.
    pub fn issue_id(&mut self) -> (r: Option<i64>)
        requires
            old(self).wf(),
        ensures
            final(self).wf(),
            final(self).waiters() == old(self).waiters(),
            r matches Some(id) ==> id as int == old(self).next() && final(self).next() == old(self).next() + 1,
            r is None ==> old(self).next() == i64::MAX && final(self).next() == old(self).next(),
            step(*old(self), *final(self), r),
    {
        if self.next_id == i64::MAX {
            None
        } else {
            let id = self.next_id;
            self.next_id = self.next_id + 1;
            Some(id)
        }
    }

    /// Records `waiter` as the one that awaits the reply to `id`.
    pub fn register(&mut self, id: i64, waiter: W)
        requires
            old(self).wf(),
            1 <= id < old(self).next(),
        ensures
            final(self).wf(),
            final(self).next() == old(self).next(),
            final(self).waiters() == old(self).waiters().insert(id, waiter),
            step(*old(self), *final(self), None),
    {
        self.pending.insert(id, waiter);
    }

    /// Issues an id and registers `waiter` under it in one step.
    pub fn begin_request(&mut self, waiter: W) -> (r: Option<i64>)
        requires
            old(self).wf(),
        ensures
            final(self).wf(),
            r matches Some(id) ==> {
                &&& id as int == old(self).next()
                &&& final(self).next() == old(self).next() + 1
                &&& final(self).waiters() == old(self).waiters().insert(id, waiter)
            },
            r is None ==> old(self).next() == i64::MAX && final(self).next() == old(self).next()
                && final(self).waiters() == old(self).waiters(),
            step(*old(self), *final(self), r),
    {
        match self.issue_id() {
            Some(id) => {
                self.register(id, waiter);
                Some(id)
            },
            None => None,
        }
    }

    /// Removes and returns the waiter of `id`; an unknown id changes nothing.
    pub fn resolve(&mut self, id: i64) -> (r: Option<W>)
        requires
            old(self).wf(),
        ensures
            final(self).wf(),
            final(self).next() == old(self).next(),
            final(self).waiters() == old(self).waiters().remove(id),
            step(*old(self), *final(self), None),
            r == (if old(self).waiters().contains_key(id) {
                Some(old(self).waiters()[id])
            } else {
                None::<W>
            }),
    {
        let r = self.pending.remove(&id);
        assert(self.pending@ =~= old(self).pending@.remove(id));
        r
    }

    /// Routes a frame by its numeric id: to its waiter where one is pending,
    /// else to the notification side.
    pub fn route(&mut self, id: Option<i64>) -> (r: Delivery<W>)
        requires
            old(self).wf(),
        ensures
            final(self).wf(),
            final(self).next() == old(self).next(),
            step(*old(self), *final(self), None),
            match id {
                Some(k) => final(self).waiters() == old(self).waiters().remove(k) && if old(
                    self,
                ).waiters().contains_key(k) {
                    r == Delivery::Reply(old(self).waiters()[k])
                } else {
                    r is Notification
                },
                None => final(self).waiters() == old(self).waiters() && r is Notification,
            },
    {
        match id {
            Some(k) => match self.resolve(k) {
                Some(w) => Delivery::Reply(w),
                None => Delivery::Notification,
            },
            None => Delivery::Notification,
        }
    }

    /// Whether a request with this id still awaits its reply.
    pub fn is_pending(&self, id: i64) -> (r: bool)
        ensures
            r == self.waiters().contains_key(id),
    {
        self.pending.contains_key(&id)
    }
}

/// One operation on a table, as the contracts of its methods state it:
/// either an id was issued (the old next id, with the counter moved on by
/// one) or none was and the counter did not go back.
pub open spec fn step<W>(before: PendingTable<W>, after: PendingTable<W>, issued: Option<i64>) -> bool {
    match issued {
        Some(id) => id as int == before.next() && after.next() == before.next() + 1,
        None => after.next() >= before.next(),
    }
}

proof fn lemma_next_monotone<W>(tables: Seq<PendingTable<W>>, issued: Seq<Option<i64>>, i: int, j: int)
    requires
        tables.len() == issued.len() + 1,
        forall|k: int| 0 <= k < issued.len() ==> step(tables[k], tables[k + 1], #[trigger] issued[k]),
        0 <= i <= j < tables.len(),
    ensures
        tables[i].next() <= tables[j].next(),
    decreases j - i,
{
    if i < j {
        lemma_next_monotone(tables, issued, i, j - 1);
        assert(step(tables[j - 1], tables[j], issued[j - 1]));
    }
}

/// Ids issued by one table strictly increase and are never reused: along
/// any history of operations, an id issued earlier is smaller than every
/// id issued later.
pub proof fn lemma_ids_strictly_increase<W>(tables: Seq<PendingTable<W>>, issued: Seq<Option<i64>>, i: int, j: int)
    requires
        tables.len() == issued.len() + 1,
        forall|k: int| 0 <= k < issued.len() ==> step(tables[k], tables[k + 1], #[trigger] issued[k]),
        0 <= i < j < issued.len(),
        issued[i] is Some,
        issued[j] is Some,
    ensures
        issued[i]->0 < issued[j]->0,
{
    assert(step(tables[i], tables[i + 1], issued[i]));
    assert(step(tables[j], tables[j + 1], issued[j]));
    lemma_next_monotone(tables, issued, i + 1, j);
}

/// Replies may come back in any order: after two requests are registered,
/// resolving the second first still hands each reply to its own waiter.
pub proof fn lemma_out_of_order_replies<W>(waiting: Map<i64, W>, first: i64, a: W, second: i64, b: W)
    requires
        first != second,
    ensures
        ({
            let both = waiting.insert(first, a).insert(second, b);
            let after_second = both.remove(second);
            &&& both.contains_key(second) && both[second] == b
            &&& after_second.contains_key(first) && after_second[first] == a
            &&& !after_second.remove(first).contains_key(first)
        }),
{
}

} // verus!
