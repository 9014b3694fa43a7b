//! The event hub: one broadcast point inside the process.
//!
//! Every subscriber has a queue of its own. Publishing appends the event to
//! each queue and never waits for a consumer; with no subscriber the event is
//! dropped. A subscriber sees what was published after it subscribed, in the
//! order of publication.

use crate::event::{Event, EventView};
use vstd::prelude::*;

verus! {

/// The values of a vector of events.
pub open spec fn event_views(events: Seq<Event>) -> Seq<EventView> {
    Seq::new(events.len(), |i: int| events[i]@)
}

/// The queues after `event` was published: it stands at the end of each.
pub open spec fn published(queues: Map<u64, Seq<EventView>>, event: EventView) -> Map<
    u64,
    Seq<EventView>,
> {
    Map::new(|id: u64| queues.dom().contains(id), |id: u64| queues[id].push(event))
}

/// The queues after each of `events` was published in turn.
pub open spec fn published_all(queues: Map<u64, Seq<EventView>>, events: Seq<EventView>) -> Map<
    u64,
    Seq<EventView>,
>
    decreases events.len(),
{
    if events.len() == 0 {
        queues
    } else {
        published(published_all(queues, events.drop_last()), events.last())
    }
}

struct Subscription {
    id: u64,
    pending: Vec<Event>,
}

/// The broadcast point. Its value is the map from each subscriber's handle to
/// the events that wait for it, oldest first.
pub struct EventHub {
    subscriptions: Vec<Subscription>,
    issued: u64,
}

impl View for EventHub {
    type V = Map<u64, Seq<EventView>>;

    closed spec fn view(&self) -> Map<u64, Seq<EventView>> {
        Map::new(
            |id: u64| self.has(id),
            |id: u64| event_views(self.subscriptions@[self.slot(id)].pending@),
        )
    }
}

impl EventHub {
    spec fn has(&self, id: u64) -> bool {
        exists|i: int| 0 <= i < self.subscriptions@.len() && #[trigger] self.subscriptions@[i].id == id
    }

    spec fn slot(&self, id: u64) -> int {
        choose|i: int| 0 <= i < self.subscriptions@.len() && #[trigger] self.subscriptions@[i].id == id
    }

    #[verifier::type_invariant]
    spec fn wf(&self) -> bool {
        &&& forall|i: int, j: int|
            0 <= i < j < self.subscriptions@.len() ==> #[trigger] self.subscriptions@[i].id
                != #[trigger] self.subscriptions@[j].id
        &&& forall|i: int|
            0 <= i < self.subscriptions@.len() ==> (#[trigger] self.subscriptions@[i]).id
                < self.issued
    }

    /// How many handles the hub has given out so far.
    pub closed spec fn issued(&self) -> nat {
        self.issued as nat
    }

    proof fn lemma_slot(&self, i: int)
        requires
            self.wf(),
            0 <= i < self.subscriptions@.len(),
        ensures
            self.has(self.subscriptions@[i].id),
            self.slot(self.subscriptions@[i].id) == i,
            self@.dom().contains(self.subscriptions@[i].id),
            self@[self.subscriptions@[i].id] == event_views(self.subscriptions@[i].pending@),
    {
        let id = self.subscriptions@[i].id;
        let j = self.slot(id);
        assert(0 <= j < self.subscriptions@.len() && self.subscriptions@[j].id == id);
        if j < i {
            assert(self.subscriptions@[j].id != self.subscriptions@[i].id);
        } else if i < j {
            assert(self.subscriptions@[i].id != self.subscriptions@[j].id);
        }
    }

    /// A hub without subscribers.
    pub fn new() -> (hub: EventHub)
        ensures
            hub@ == Map::<u64, Seq<EventView>>::empty(),
            hub.issued() == 0,
    {
        let hub = EventHub { subscriptions: Vec::new(), issued: 0 };
        assert(hub@ =~= Map::<u64, Seq<EventView>>::empty());
        hub
    }

    /// The number of subscribers.
    pub fn subscriber_count(&self) -> (n: usize)
        ensures
            self@.dom().finite(),
            n == self@.dom().len(),
    {
        proof {
            use_type_invariant(self);
            self.lemma_dom_len(self.subscriptions@.len() as int);
            assert(self.ids_below(self.subscriptions@.len() as int) =~= self@.dom());
        }
        self.subscriptions.len()
    }

    spec fn ids_below(&self, n: int) -> Set<u64> {
        Set::new(|id: u64| exists|i: int| 0 <= i < n && #[trigger] self.subscriptions@[i].id == id)
    }

    proof fn lemma_dom_len(&self, n: int)
        requires
            self.wf(),
            0 <= n <= self.subscriptions@.len(),
        ensures
            self.ids_below(n).finite(),
            self.ids_below(n).len() == n,
        decreases n,
    {
        if n == 0 {
            assert(self.ids_below(0) =~= Set::<u64>::empty());
        } else {
            self.lemma_dom_len(n - 1);
            let last = self.subscriptions@[n - 1].id;
            assert(!self.ids_below(n - 1).contains(last)) by {
                if self.ids_below(n - 1).contains(last) {
                    let i = choose|i: int| 0 <= i < n - 1 && #[trigger] self.subscriptions@[i].id == last;
                    assert(self.subscriptions@[i].id != self.subscriptions@[n - 1].id);
                }
            }
            assert(self.ids_below(n) =~= self.ids_below(n - 1).insert(last));
        }
    }

    /// Moves the hub's parts out and leaves an empty hub behind, so that the
    /// parts can be changed and put back as a whole.
    fn take_parts(&mut self) -> (parts: (Vec<Subscription>, u64))
        ensures
            parts.0 == old(self).subscriptions,
            parts.1 == old(self).issued,
    {
        let mut taken = EventHub::new();
        std::mem::swap(self, &mut taken);
        let EventHub { subscriptions, issued } = taken;
        (subscriptions, issued)
    }

    fn find(&self, id: u64) -> (r: Option<usize>)
        ensures
            r is Some <==> self@.dom().contains(id),
            r matches Some(i) ==> i < self.subscriptions@.len() && self.subscriptions@[i as int].id
                == id && self@[id] == event_views(self.subscriptions@[i as int].pending@),
    {
        proof {
            use_type_invariant(self);
        }
        let mut i: usize = 0;
        while i < self.subscriptions.len()
            invariant
                self.wf(),
                i <= self.subscriptions@.len(),
                forall|k: int| 0 <= k < i ==> (#[trigger] self.subscriptions@[k]).id != id,
            decreases self.subscriptions@.len() - i,
        {
            if self.subscriptions[i].id == id {
                proof {
                    self.lemma_slot(i as int);
                }
                return Some(i);
            }
            i = i + 1;
        }
        None
    }

    /// Whether `id` is the handle of a subscriber.
    pub fn is_subscribed(&self, id: u64) -> (r: bool)
        ensures
            r == self@.dom().contains(id),
    {
        self.find(id).is_some()
    }

    /// The number of events that wait for subscriber `id`, if there is one.
    pub fn pending(&self, id: u64) -> (r: Option<usize>)
        ensures
            r is Some <==> self@.dom().contains(id),
            r matches Some(n) ==> n == self@[id].len(),
    {
        match self.find(id) {
            Some(i) => Some(self.subscriptions[i].pending.len()),
            None => None,
        }
    }

    /// Adds a subscriber and returns its handle, which no subscriber had
    /// before. Nothing waits for the new subscriber: it sees only what is
    /// published from now on. Returns nothing, and changes nothing, once
    /// `u64::MAX` handles have been given out.
    pub fn subscribe(&mut self) -> (r: Option<u64>)
        ensures
            r is Some <==> old(self).issued() < u64::MAX,
            match r {
                Some(id) => {
                    &&& !old(self)@.dom().contains(id)
                    &&& final(self)@ == old(self)@.insert(id, Seq::<EventView>::empty())
                    &&& final(self).issued() == old(self).issued() + 1
                },
                None => final(self)@ == old(self)@ && final(self).issued() == old(self).issued(),
            },
    {
        proof {
            use_type_invariant(&*self);
        }
        if self.issued == u64::MAX {
            return None;
        }
        let id: u64 = self.issued;
        let ghost before = *self;
        assert(!before.has(id)) by {
            if before.has(id) {
                let i = before.slot(id);
                assert(before.subscriptions@[i].id < before.issued);
            }
        }
        let (mut subscriptions, issued) = self.take_parts();
        subscriptions.push(Subscription { id, pending: Vec::new() });
        *self = EventHub { subscriptions, issued: issued + 1 };
        proof {
            let n = before.subscriptions@.len() as int;
            assert(forall|i: int| 0 <= i < n ==> self.subscriptions@[i] == before.subscriptions@[i]);
            assert(self.wf());
            assert forall|k: u64| self.has(k) <==> (k == id || before.has(k)) by {
                if before.has(k) {
                    let i = before.slot(k);
                    assert(self.subscriptions@[i].id == k);
                }
                if k == id {
                    assert(self.subscriptions@[n].id == k);
                }
            }
            assert forall|k: u64| self.has(k) implies #[trigger] self@[k] == before@.insert(
                id,
                Seq::<EventView>::empty(),
            )[k] by {
                if k == id {
                    self.lemma_slot(n);
                    assert(event_views(self.subscriptions@[n].pending@) =~= Seq::<EventView>::empty());
                } else {
                    let i = before.slot(k);
                    before.lemma_slot(i);
                    self.lemma_slot(i);
                }
            }
            assert(self@ =~= before@.insert(id, Seq::<EventView>::empty()));
        }
        Some(id)
    }
    /// Removes subscriber `id` together with what waited for it. Returns
    /// whether there was such a subscriber.
    pub fn unsubscribe(&mut self, id: u64) -> (removed: bool)
        ensures
            removed == old(self)@.dom().contains(id),
            final(self)@ == old(self)@.remove(id),
            final(self).issued() == old(self).issued(),
    {
        proof {
            use_type_invariant(&*self);
        }
        let ghost before = *self;
        match self.find(id) {
            None => {
                assert(self@ =~= before@.remove(id));
                false
            },
            Some(at) => {
                let (mut subscriptions, issued) = self.take_parts();
                let _ = subscriptions.remove(at);
                *self = EventHub { subscriptions, issued };
                proof {
                    let n = before.subscriptions@.len() as int;
                    assert forall|i: int| 0 <= i < n - 1 implies #[trigger] self.subscriptions@[i]
                        == before.subscriptions@[if i < at { i } else { i + 1 }] by {}
                    assert forall|k: u64| self.has(k) <==> (k != id && before.has(k)) by {
                        if self.has(k) {
                            let i = self.slot(k);
                            let j = if i < at { i } else { i + 1 };
                            assert(before.subscriptions@[j].id == k);
                            if k == id {
                                before.lemma_slot(j);
                                before.lemma_slot(at as int);
                            }
                        }
                        if k != id && before.has(k) {
                            let j = before.slot(k);
                            let i = if j < at { j } else { j - 1 };
                            assert(self.subscriptions@[i].id == k);
                        }
                    }
                    assert forall|k: u64| self.has(k) implies #[trigger] self@[k] == before@[k] by {
                        let i = self.slot(k);
                        let j = if i < at { i } else { i + 1 };
                        self.lemma_slot(i);
                        before.lemma_slot(j);
                    }
                    assert(self@ =~= before@.remove(id));
                }
                true
            },
        }
    }

    /// Publishes `event` to every subscriber: it is appended to each queue.
    /// Returns the number of subscribers, which may be zero: then the event
    /// is dropped and the hub stays as it was. Publishing never fails and
    /// never waits for a consumer. What is published has a namespace.
    pub fn publish(&mut self, event: Event) -> (receivers: usize)
        ensures
            final(self)@ == published(old(self)@, event@),
            event@.namespace.len() > 0,
            old(self)@.dom().len() == 0 ==> final(self)@ == old(self)@,
            old(self)@.dom().finite(),
            receivers == old(self)@.dom().len(),
            final(self).issued() == old(self).issued(),
    {
        proof {
            use_type_invariant(&*self);
        }
        let ghost before = *self;
        let _ = event.namespace();
        let receivers: usize = self.subscriber_count();
        let (subscriptions, issued) = self.take_parts();
        let mut updated: Vec<Subscription> = Vec::new();
        for subscription in it: subscriptions
            invariant
                it.seq() == before.subscriptions@,
                updated@.len() == it.index(),
                forall|k: int|
                    0 <= k < updated@.len() ==> (#[trigger] updated@[k]).id
                        == before.subscriptions@[k].id && event_views(updated@[k].pending@)
                        == event_views(before.subscriptions@[k].pending@).push(event@),
        {
            let ghost waiting = event_views(subscription.pending@);
            let mut subscription = subscription;
            subscription.pending.push(event.duplicate());
            assert(event_views(subscription.pending@) =~= waiting.push(event@));
            updated.push(subscription);
        }
        *self = EventHub { subscriptions: updated, issued };
        proof {
            assert forall|k: u64| self.has(k) <==> before.has(k) by {
                if self.has(k) {
                    let i = self.slot(k);
                    assert(before.subscriptions@[i].id == k);
                }
                if before.has(k) {
                    let i = before.slot(k);
                    assert(self.subscriptions@[i].id == k);
                }
            }
            assert forall|k: u64| self.has(k) implies #[trigger] self@[k] == before@[k].push(
                event@,
            ) by {
                let i = self.slot(k);
                self.lemma_slot(i);
                before.lemma_slot(i);
            }
            assert(self@ =~= published(before@, event@));
            if before@.dom().len() == 0 {
                law_publish_without_subscribers(before@, event@);
            }
        }
        receivers
    }

    /// Hands out what waits for subscriber `id`, oldest first, and empties
    /// its queue. Returns nothing, and changes nothing, when there is no
    /// such subscriber.
    pub fn poll(&mut self, id: u64) -> (r: Option<Vec<Event>>)
        ensures
            r is Some <==> old(self)@.dom().contains(id),
            match r {
                Some(events) => event_views(events@) == old(self)@[id] && final(self)@ == old(
                    self,
                )@.insert(id, Seq::<EventView>::empty()),
                None => final(self)@ == old(self)@,
            },
            final(self).issued() == old(self).issued(),
    {
        proof {
            use_type_invariant(&*self);
        }
        let ghost before = *self;
        match self.find(id) {
            None => None,
            Some(at) => {
                let (mut subscriptions, issued) = self.take_parts();
                let taken = subscriptions.remove(at);
                subscriptions.insert(at, Subscription { id, pending: Vec::new() });
                *self = EventHub { subscriptions, issued };
                proof {
                    let n = before.subscriptions@.len() as int;
                    assert forall|i: int| 0 <= i < n && i != at implies #[trigger] self.subscriptions@[i]
                        == before.subscriptions@[i] by {}
                    assert(self.subscriptions@[at as int].id == id);
                    assert forall|k: u64| self.has(k) <==> before.has(k) by {
                        if self.has(k) {
                            let i = self.slot(k);
                            assert(before.subscriptions@[i].id == k);
                        }
                        if before.has(k) {
                            let i = before.slot(k);
                            assert(self.subscriptions@[i].id == k);
                        }
                    }
                    assert forall|k: u64| self.has(k) implies #[trigger] self@[k] == before@.insert(
                        id,
                        Seq::<EventView>::empty(),
                    )[k] by {
                        let i = self.slot(k);
                        self.lemma_slot(i);
                        before.lemma_slot(i);
                        if k == id {
                            before.lemma_slot(at as int);
                            assert(event_views(self.subscriptions@[i].pending@) =~= Seq::<
                                EventView,
                            >::empty());
                        }
                    }
                    assert(self@ =~= before@.insert(id, Seq::<EventView>::empty()));
                    before.lemma_slot(at as int);
                }
                Some(taken.pending)
            },
        }
    }
}

/// Publishing with no subscriber changes nothing: the event is dropped.
pub proof fn law_publish_without_subscribers(queues: Map<u64, Seq<EventView>>, event: EventView)
    requires
        queues.dom().finite(),
        queues.dom().len() == 0,
    ensures
        published(queues, event) == queues,
{
    assert(queues.dom() =~= Set::<u64>::empty());
    assert(published(queues, event) =~= queues);
}

/// After a run of publications every subscriber holds what it held before,
/// followed by all that was published, in the order of publication.
pub proof fn law_publish_order(queues: Map<u64, Seq<EventView>>, events: Seq<EventView>, id: u64)
    requires
        queues.dom().contains(id),
    ensures
        published_all(queues, events).dom() == queues.dom(),
        published_all(queues, events)[id] == queues[id] + events,
    decreases events.len(),
{
    if events.len() == 0 {
        assert(queues[id] + events =~= queues[id]);
    } else {
        law_publish_order(queues, events.drop_last(), id);
        let earlier = published_all(queues, events.drop_last());
        assert(published(earlier, events.last()).dom() =~= earlier.dom());
        assert(queues[id] + events =~= (queues[id] + events.drop_last()).push(events.last()));
    }
}

/// Tells the events of the adapter called `source` from all others.
pub open spec fn published_by(source: Seq<char>) -> spec_fn(EventView) -> bool {
    |event: EventView| event.source() == source
}

/// `merged` is an interleaving of `ours` and `theirs`: it holds the events of
/// both, each sequence in its own order.
pub open spec fn is_interleaving(
    merged: Seq<EventView>,
    ours: Seq<EventView>,
    theirs: Seq<EventView>,
) -> bool
    decreases merged.len(),
{
    if merged.len() == 0 {
        ours.len() == 0 && theirs.len() == 0
    } else {
        ||| ours.len() > 0 && merged.last() == ours.last() && is_interleaving(
            merged.drop_last(),
            ours.drop_last(),
            theirs,
        )
        ||| theirs.len() > 0 && merged.last() == theirs.last() && is_interleaving(
            merged.drop_last(),
            ours,
            theirs.drop_last(),
        )
    }
}

/// Picking one adapter's events out of an interleaving gives that adapter's
/// events back, in their order.
proof fn lemma_filter_of_interleaving(
    merged: Seq<EventView>,
    ours: Seq<EventView>,
    theirs: Seq<EventView>,
    pick: spec_fn(EventView) -> bool,
)
    requires
        is_interleaving(merged, ours, theirs),
        forall|i: int| 0 <= i < ours.len() ==> pick(#[trigger] ours[i]),
        forall|i: int| 0 <= i < theirs.len() ==> !pick(#[trigger] theirs[i]),
    ensures
        merged.filter(pick) == ours,
    decreases merged.len(),
{
    reveal(Seq::filter);
    if merged.len() == 0 {
        assert(merged.filter(pick) =~= ours);
    } else if ours.len() > 0 && merged.last() == ours.last() && is_interleaving(
        merged.drop_last(),
        ours.drop_last(),
        theirs,
    ) {
        assert forall|i: int| 0 <= i < ours.drop_last().len() implies pick(
            #[trigger] ours.drop_last()[i],
        ) by {
            assert(ours.drop_last()[i] == ours[i]);
        }
        lemma_filter_of_interleaving(merged.drop_last(), ours.drop_last(), theirs, pick);
        assert(pick(ours[ours.len() - 1]));
        assert(ours.drop_last().push(ours.last()) =~= ours);
    } else {
        assert forall|i: int| 0 <= i < theirs.drop_last().len() implies !pick(
            #[trigger] theirs.drop_last()[i],
        ) by {
            assert(theirs.drop_last()[i] == theirs[i]);
        }
        lemma_filter_of_interleaving(merged.drop_last(), ours, theirs.drop_last(), pick);
        assert(!pick(theirs[theirs.len() - 1]));
    }
}

/// Per-source order. Let one adapter publish `ours` and all other adapters
/// together publish `theirs`, and let the publications reach the hub
/// interleaved in any way, as `merged`. Then a subscriber sees the events of
/// the one adapter in the order in which that adapter published them: what
/// it holds of that adapter's events is what it held of them before,
/// followed by `ours`.
pub proof fn law_per_source_fifo(
    queues: Map<u64, Seq<EventView>>,
    id: u64,
    source: Seq<char>,
    ours: Seq<EventView>,
    theirs: Seq<EventView>,
    merged: Seq<EventView>,
)
    requires
        queues.dom().contains(id),
        forall|i: int| 0 <= i < ours.len() ==> (#[trigger] ours[i]).source() == source,
        forall|i: int| 0 <= i < theirs.len() ==> (#[trigger] theirs[i]).source() != source,
        is_interleaving(merged, ours, theirs),
    ensures
        published_all(queues, merged)[id].filter(published_by(source)) == queues[id].filter(
            published_by(source),
        ) + ours,
{
    law_publish_order(queues, merged, id);
    Seq::filter_distributes_over_add(queues[id], merged, published_by(source));
    lemma_filter_of_interleaving(merged, ours, theirs, published_by(source));
}

} // verus!
