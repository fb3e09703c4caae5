//! The broadcast hub: every published paint command is copied to the queue
//! of each registered subscriber.
use vstd::prelude::*;
use crate::codec::PixelUpdate;

verus! {

/// How many commands a subscriber's queue holds before the oldest is dropped.
pub const QUEUE_CAP: usize = 256;

/// A subscriber's queue after one more command arrives: when it is full the
/// oldest command makes room.
pub open spec fn bounded_push(q: Seq<PixelUpdate>, u: PixelUpdate) -> Seq<PixelUpdate> {
    if q.len() < QUEUE_CAP {
        q.push(u)
    } else {
        q.drop_first().push(u)
    }
}

/// The subscribers and their queues after one command is published.
pub open spec fn published(
    s: Seq<(u64, Seq<PixelUpdate>)>,
    u: PixelUpdate,
) -> Seq<(u64, Seq<PixelUpdate>)> {
    Seq::new(s.len(), |k: int| (s[k].0, bounded_push(s[k].1, u)))
}

/// The subscribers and their queues after a series of commands is published.
pub open spec fn published_all(
    s: Seq<(u64, Seq<PixelUpdate>)>,
    us: Seq<PixelUpdate>,
) -> Seq<(u64, Seq<PixelUpdate>)>
    decreases us.len(),
{
    if us.len() == 0 {
        s
    } else {
        published(published_all(s, us.drop_last()), us.last())
    }
}

/// Whether `id` names one of the subscribers.
pub open spec fn has_id(s: Seq<(u64, Seq<PixelUpdate>)>, id: u64) -> bool {
    exists|k: int| 0 <= k < s.len() && s[k].0 == id
}

proof fn lemma_published_all_keeps_ids(s: Seq<(u64, Seq<PixelUpdate>)>, us: Seq<PixelUpdate>)
    ensures
        published_all(s, us).len() == s.len(),
        forall|k: int| 0 <= k < s.len() ==> (#[trigger] published_all(s, us)[k]).0 == s[k].0,
    decreases us.len(),
{
    if us.len() > 0 {
        lemma_published_all_keeps_ids(s, us.drop_last());
    }
}

/// A subscriber registered after some commands were published never
/// receives them: whatever its queue holds later is the most recent part of
/// the commands published since it registered.
pub proof fn lemma_late_subscriber(
    s: Seq<(u64, Seq<PixelUpdate>)>,
    id: u64,
    later: Seq<PixelUpdate>,
)
    ensures
        published_all(s.push((id, Seq::<PixelUpdate>::empty())), later).len() == s.len() + 1,
        published_all(s.push((id, Seq::<PixelUpdate>::empty())), later)[s.len() as int].0 == id,
        ({
            let q = published_all(s.push((id, Seq::<PixelUpdate>::empty())), later)[s.len() as int].1;
            q.len() <= later.len() && q == later.subrange(later.len() - q.len(), later.len() as int)
        }),
    decreases later.len(),
{
    let s1 = s.push((id, Seq::<PixelUpdate>::empty()));
    lemma_published_all_keeps_ids(s1, later);
    if later.len() > 0 {
        let front = later.drop_last();
        let u = later.last();
        lemma_late_subscriber(s, id, front);
        let q = published_all(s1, front)[s.len() as int].1;
        let q2 = published_all(s1, later)[s.len() as int].1;
        assert(q2 == bounded_push(q, u));
        if q.len() < QUEUE_CAP {
            assert(q2 =~= later.subrange(later.len() - q2.len(), later.len() as int));
        } else {
            assert(q2 =~= later.subrange(later.len() - q2.len(), later.len() as int));
        }
    }
}

struct Subscription {
    id: u64,
    queue: Vec<PixelUpdate>,
}

/// The registry of subscribers, each with its own bounded queue.
pub struct Hub {
    next_id: u64,
    subs: Vec<Subscription>,
}

impl Hub {
    /// The subscribers in order of registration, each with its pending commands.
    pub closed spec fn view(&self) -> Seq<(u64, Seq<PixelUpdate>)> {
        Seq::new(self.subs@.len(), |k: int| (self.subs@[k].id, self.subs@[k].queue@))
    }

    pub closed spec fn wf(&self) -> bool {
        &&& forall|j: int, k: int|
            0 <= j < self.subs@.len() && 0 <= k < self.subs@.len() && j != k ==> self.subs@[j].id
                != self.subs@[k].id
        &&& forall|k: int| 0 <= k < self.subs@.len() ==> (#[trigger] self.subs@[k]).id < self.next_id
        &&& forall|k: int|
            0 <= k < self.subs@.len() ==> (#[trigger] self.subs@[k]).queue@.len() <= QUEUE_CAP
    }

    /// Whether another subscriber can still be given a fresh identifier.
    pub closed spec fn can_register(&self) -> bool {
        self.next_id < u64::MAX
    }

    /// A hub with no subscribers.
    pub fn new() -> (r: Hub)
        ensures
            r.wf(),
            r@ == Seq::<(u64, Seq<PixelUpdate>)>::empty(),
            r.can_register(),
    {
        Hub { next_id: 0, subs: Vec::new() }
    }

    /// Adds a subscriber with an empty queue and returns its identifier, or
    /// `None` once every identifier has been handed out.
    pub fn register(&mut self) -> (r: Option<u64>)
        requires
            old(self).wf(),
        ensures
            final(self).wf(),
            r is Some <==> old(self).can_register(),
            r matches Some(id) ==> !has_id(old(self)@, id) && final(self)@ == old(self)@.push(
                (id, Seq::<PixelUpdate>::empty()),
            ),
            r is None ==> final(self)@ == old(self)@,
    {
        if self.next_id == u64::MAX {
            return None;
        }
        let id = self.next_id;
        self.subs.push(Subscription { id, queue: Vec::new() });
        self.next_id = self.next_id + 1;
        assert(self@ =~= old(self)@.push((id, Seq::<PixelUpdate>::empty())));
        Some(id)
    }

    fn position(&self, id: u64) -> (r: Option<usize>)
        requires
            self.wf(),
        ensures
            r matches Some(k) ==> k < self@.len() && self@[k as int].0 == id,
            r is None ==> !has_id(self@, id),
    {
        let mut k: usize = 0;
        while k < self.subs.len()
            invariant
                k <= self.subs@.len(),
                forall|j: int| 0 <= j < k ==> self.subs@[j].id != id,
            decreases self.subs@.len() - k,
        {
            if self.subs[k].id == id {
                return Some(k);
            }
            k = k + 1;
        }
        assert(!has_id(self@, id)) by {
            if has_id(self@, id) {
                let j = choose|j: int| 0 <= j < self@.len() && self@[j].0 == id;
                assert(self.subs@[j].id == id);
            }
        }
        None
    }

    /// Whether `id` is a registered subscriber.
    pub fn is_registered(&self, id: u64) -> (r: bool)
        requires
            self.wf(),
        ensures
            r == has_id(self@, id),
    {
        self.position(id).is_some()
    }

    /// Removes a subscriber; nothing published afterwards reaches it. Returns
    /// whether it was registered.
    pub fn unregister(&mut self, id: u64) -> (r: bool)
        requires
            old(self).wf(),
        ensures
            final(self).wf(),
            r == has_id(old(self)@, id),
            !has_id(final(self)@, id),
            r ==> exists|k: int|
                0 <= k < old(self)@.len() && old(self)@[k].0 == id && final(self)@ == old(self)@.remove(k),
            !r ==> final(self)@ == old(self)@,
    {
        match self.position(id) {
            None => false,
            Some(k) => {
                self.subs.remove(k);
                assert(self@ =~= old(self)@.remove(k as int));
                assert(!has_id(self@, id)) by {
                    if has_id(self@, id) {
                        let j = choose|j: int| 0 <= j < self@.len() && self@[j].0 == id;
                        if j < k {
                            assert(old(self).subs@[j].id == id);
                        } else {
                            assert(old(self).subs@[j + 1].id == id);
                        }
                    }
                }
                true
            },
        }
    }

    /// Copies a command into every subscriber's queue, dropping the oldest
    /// entry of a full queue; it never waits on a subscriber.
    pub fn publish(&mut self, u: &PixelUpdate)
        requires
            old(self).wf(),
        ensures
            final(self).wf(),
            final(self)@ == published(old(self)@, *u),
    {
        let n = self.subs.len();
        let mut k: usize = 0;
        while k < n
            invariant
                self.wf(),
                n == self.subs@.len(),
                n == old(self).subs@.len(),
                self.next_id == old(self).next_id,
                k <= n,
                forall|j: int| 0 <= j < k ==> (#[trigger] self@[j]) == (old(self)@[j].0, bounded_push(old(self)@[j].1, *u)),
                forall|j: int| k <= j < n ==> (#[trigger] self@[j]) == old(self)@[j],
            decreases n - k,
        {
            let ghost before = self.subs@;
            let ghost vbefore = self@;
            assert(self@[k as int] == old(self)@[k as int]);
            let mut s = self.subs.remove(k);
            let ghost q0 = s.queue@;
            assert(q0 == old(self)@[k as int].1 && s.id == old(self)@[k as int].0);
            if s.queue.len() >= QUEUE_CAP {
                s.queue.remove(0);
                assert(s.queue@ =~= q0.drop_first());
            }
            s.queue.push(*u);
            assert(s.queue@ =~= bounded_push(q0, *u));
            self.subs.insert(k, s);
            assert(forall|j: int| 0 <= j < n && j != k ==> self.subs@[j] == before[j]);
            assert forall|j: int| 0 <= j < k + 1 implies (#[trigger] self@[j]) == (
                old(self)@[j].0,
                bounded_push(old(self)@[j].1, *u),
            ) by {
                if j < k {
                    assert(self.subs@[j] == before[j]);
                    assert(vbefore[j] == self@[j]);
                }
            }
            assert forall|j: int| k + 1 <= j < n implies (#[trigger] self@[j]) == old(self)@[j] by {
                assert(self.subs@[j] == before[j]);
                assert(vbefore[j] == self@[j]);
            }
            k = k + 1;
        }
        assert(self@ =~= published(old(self)@, *u));
    }

    /// Hands out and empties a subscriber's queue, oldest command first; an
    /// unknown subscriber gets nothing.
    pub fn drain(&mut self, id: u64) -> (r: Vec<PixelUpdate>)
        requires
            old(self).wf(),
        ensures
            final(self).wf(),
            !has_id(old(self)@, id) ==> r@ == Seq::<PixelUpdate>::empty() && final(self)@ == old(self)@,
            forall|k: int|
                0 <= k < old(self)@.len() && (#[trigger] old(self)@[k]).0 == id ==> r@ == old(self)@[k].1
                    && final(self)@ == old(self)@.update(k, (id, Seq::<PixelUpdate>::empty())),
    {
        match self.position(id) {
            None => Vec::new(),
            Some(k) => {
                let s = self.subs.remove(k);
                let q = s.queue;
                self.subs.insert(k, Subscription { id, queue: Vec::new() });
                assert(self@ =~= old(self)@.update(k as int, (id, Seq::<PixelUpdate>::empty())));
                q
            },
        }
    }
}

} // verus!
