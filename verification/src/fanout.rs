//! The fan-out dispatcher: every change, fetched anew and encoded, goes to
//! every subscriber's own bounded queue, so that no subscriber waits for
//! another.

use crate::assets::{encode_wire_user_assets, spec_wire_assets, WireUserAssets, WireUserAssetsView};
use crate::bus::{ChangeEvent, ChangeKind};
use crate::codec::decode_error;
use crate::config::WatchConfig;
use crate::decimal::{decimal_digits, decimal_text};
use crate::filter::{listing_due, listing_of, spec_ingest, AccountUpdate};
use crate::listing::{encode_wire_listing, spec_wire, WireListing, WireListingView};
use crate::store::{log_of, row_of, ProjectionStore, StoreView};
use std::collections::VecDeque;
use vstd::prelude::*;

verus! {

/// The queue length of a subscriber that names none.
pub const DEFAULT_QUEUE_CAPACITY: usize = 100;

/// One message of the stream.
#[derive(Debug)]
pub enum WireMessage {
    Listing(WireListing),
    UserAssets(WireUserAssets),
}

/// What a message holds.
pub enum WireMessageView {
    Listing(WireListingView),
    UserAssets(WireUserAssetsView),
}

impl View for WireMessage {
    type V = WireMessageView;

    open spec fn view(&self) -> WireMessageView {
        match self {
            WireMessage::Listing(listing) => WireMessageView::Listing(listing@),
            WireMessage::UserAssets(assets) => WireMessageView::UserAssets(assets@),
        }
    }
}

impl WireListing {
    /// A second copy of the message.
    pub fn duplicate(&self) -> (copy: WireListing)
        ensures
            copy@ == self@,
    {
        WireListing {
            account: self.account.clone(),
            name: self.name.clone(),
            seed: self.seed,
            mint: self.mint.clone(),
            funding_goal: self.funding_goal,
            pool_mint_supply: self.pool_mint_supply.clone(),
            funding_raised: self.funding_raised,
            available_tokens: self.available_tokens.clone(),
            base_price: self.base_price,
            tokens_sold: self.tokens_sold.clone(),
            bump: self.bump,
            vault_bump: self.vault_bump,
            mint_bump: self.mint_bump,
            updated_at: self.updated_at.clone(),
        }
    }
}

impl WireMessage {
    /// A second copy of the message.
    pub fn duplicate(&self) -> (copy: WireMessage)
        ensures
            copy@ == self@,
    {
        match self {
            WireMessage::Listing(listing) => WireMessage::Listing(listing.duplicate()),
            WireMessage::UserAssets(assets) => WireMessage::UserAssets(assets.duplicate()),
        }
    }
}

/// One subscriber of the stream.
pub struct Subscriber {
    id: u64,
    capacity: usize,
    queue: VecDeque<WireMessage>,
    lost: u64,
}

/// What the dispatcher keeps of a subscriber: its name, the bound of its
/// queue, the messages not yet delivered, oldest first, and how many
/// messages it has lost to a full queue.
pub struct SubscriberView {
    pub id: u64,
    pub capacity: usize,
    pub queue: Seq<WireMessageView>,
    pub lost: u64,
}

impl View for Subscriber {
    type V = SubscriberView;

    closed spec fn view(&self) -> SubscriberView {
        SubscriberView {
            id: self.id,
            capacity: self.capacity,
            queue: Seq::new(self.queue@.len(), |i: int| self.queue@[i]@),
            lost: self.lost,
        }
    }
}

/// A count one higher, as far as it goes.
pub open spec fn one_more(count: u64) -> u64 {
    if count == u64::MAX {
        count
    } else {
        (count + 1) as u64
    }
}

/// A subscriber after `message` was offered to it. Where the queue has
/// room the message joins at the end. Where it is full the oldest message
/// gives way and is counted as lost; with a queue of no length the message
/// itself is lost.
pub open spec fn offered(subscriber: SubscriberView, message: WireMessageView) -> SubscriberView {
    if subscriber.capacity == 0 {
        SubscriberView { lost: one_more(subscriber.lost), ..subscriber }
    } else if subscriber.queue.len() >= subscriber.capacity {
        SubscriberView {
            queue: subscriber.queue.drop_first().push(message),
            lost: one_more(subscriber.lost),
            ..subscriber
        }
    } else {
        SubscriberView { queue: subscriber.queue.push(message), ..subscriber }
    }
}

/// The subscribers after `message` was offered to each.
pub open spec fn spec_broadcast(subscribers: Seq<SubscriberView>, message: WireMessageView) -> Seq<
    SubscriberView,
> {
    Seq::new(subscribers.len(), |i: int| offered(subscribers[i], message))
}

/// The subscribers after each of `messages` was broadcast in turn.
pub open spec fn spec_broadcast_all(
    subscribers: Seq<SubscriberView>,
    messages: Seq<WireMessageView>,
) -> Seq<SubscriberView>
    decreases messages.len(),
{
    if messages.len() == 0 {
        subscribers
    } else {
        spec_broadcast(spec_broadcast_all(subscribers, messages.drop_last()), messages.last())
    }
}

/// Where the subscriber named `id` stands, if it is there.
pub open spec fn place_of(subscribers: Seq<SubscriberView>, id: u64) -> Option<int> {
    if exists|i: int| 0 <= i < subscribers.len() && (#[trigger] subscribers[i]).id == id {
        Some(choose|i: int| 0 <= i < subscribers.len() && (#[trigger] subscribers[i]).id == id)
    } else {
        None
    }
}

/// The message that a change event leads to: the current state of its
/// subject, fetched from the store and encoded; none where the store does
/// not hold the subject.
pub open spec fn message_for(store: StoreView, event: ChangeEvent) -> Option<WireMessageView> {
    match event.kind {
        ChangeKind::ListingChanged => match row_of(store, event.subject@) {
            Some((listing, updated_at)) => Some(
                WireMessageView::Listing(
                    spec_wire(event.subject, listing, decimal_digits(updated_at as nat)),
                ),
            ),
            None => None,
        },
        ChangeKind::UserAssetsChanged => if log_of(store, event.subject@).len() > 0 {
            Some(
                WireMessageView::UserAssets(
                    spec_wire_assets(event.subject, log_of(store, event.subject@).last()),
                ),
            )
        } else {
            None
        },
    }
}

/// What became of a change event.
#[derive(Clone, Copy, Debug, PartialEq, Eq)]
pub enum Dispatched {
    /// The state of the subject went to every subscriber.
    Delivered,
    /// The store does not hold the subject: the event was dropped.
    Missing,
}

/// The dispatcher: the subscribers in the order they came.
pub struct FanoutDispatcher {
    subscribers: Vec<Subscriber>,
    next_id: u64,
}

impl View for FanoutDispatcher {
    type V = Seq<SubscriberView>;

    closed spec fn view(&self) -> Seq<SubscriberView> {
        Seq::new(self.subscribers@.len(), |i: int| self.subscribers@[i]@)
    }
}

impl FanoutDispatcher {
    /// Whether the dispatcher is well formed: no two subscribers share a
    /// name, and no queue is longer than its bound.
    pub closed spec fn wf(&self) -> bool {
        &&& forall|i: int|
            0 <= i < self.subscribers@.len() ==> (#[trigger] self.subscribers@[i]).id
                < self.next_id && self.subscribers@[i].queue@.len()
                <= self.subscribers@[i].capacity
        &&& forall|i: int, j: int|
            0 <= i < j < self.subscribers@.len() ==> (#[trigger] self.subscribers@[i]).id != (
            #[trigger] self.subscribers@[j]).id
    }

    /// The name that the next subscriber gets.
    pub closed spec fn next_id(&self) -> u64 {
        self.next_id
    }

    /// In a well-formed dispatcher every queue is within its bound and every
    /// name is taken once.
    pub proof fn lemma_bounded(&self)
        requires
            self.wf(),
        ensures
            forall|i: int|
                0 <= i < self@.len() ==> (#[trigger] self@[i]).queue.len() <= self@[i].capacity
                    && self@[i].id < self.next_id(),
            forall|i: int, j: int|
                0 <= i < j < self@.len() ==> (#[trigger] self@[i]).id != (#[trigger] self@[j]).id,
    {
        assert forall|i: int| 0 <= i < self@.len() implies (#[trigger] self@[i]).queue.len()
            <= self@[i].capacity && self@[i].id < self.next_id() by {
            assert(self@[i] == self.subscribers@[i]@);
        }
        assert forall|i: int, j: int| 0 <= i < j < self@.len() implies (#[trigger] self@[i]).id != (
        #[trigger] self@[j]).id by {
            assert(self@[i] == self.subscribers@[i]@ && self@[j] == self.subscribers@[j]@);
        }
    }

    /// A dispatcher without subscribers.
    pub fn new() -> (dispatcher: FanoutDispatcher)
        ensures
            dispatcher.wf(),
            dispatcher.next_id() == 0,
            dispatcher@ == Seq::<SubscriberView>::empty(),
    {
        let dispatcher = FanoutDispatcher { subscribers: Vec::new(), next_id: 0 };
        assert(dispatcher@ =~= Seq::<SubscriberView>::empty());
        dispatcher
    }

    /// How many subscribers there are.
    pub fn subscriber_count(&self) -> (count: usize)
        ensures
            count == self@.len(),
    {
        self.subscribers.len()
    }

    /// Takes a new subscriber with an empty queue of at most `capacity`
    /// messages and returns its name. The subscribers that are there stay as
    /// they are. `None` only once every name has been given out.
    pub fn subscribe(&mut self, capacity: usize) -> (r: Option<u64>)
        requires
            old(self).wf(),
        ensures
            final(self).wf(),
            match r {
                Some(id) => {
                    &&& id == old(self).next_id()
                    &&& final(self).next_id() == id + 1
                    &&& final(self)@ == old(self)@.push(
                        SubscriberView { id, capacity, queue: Seq::empty(), lost: 0 },
                    )
                },
                None => {
                    &&& old(self).next_id() == u64::MAX
                    &&& final(self).next_id() == u64::MAX
                    &&& final(self)@ == old(self)@
                },
            },
    {
        if self.next_id == u64::MAX {
            return None;
        }
        let id = self.next_id;
        let subscriber = Subscriber { id, capacity, queue: VecDeque::new(), lost: 0 };
        assert(subscriber@.queue =~= Seq::<WireMessageView>::empty());
        self.subscribers.push(subscriber);
        self.next_id = id + 1;
        assert(self@ =~= old(self)@.push(
            SubscriberView { id, capacity, queue: Seq::empty(), lost: 0 },
        ));
        Some(id)
    }

    /// Where the subscriber named `id` stands.
    fn position(&self, id: u64) -> (r: Option<usize>)
        ensures
            match r {
                Some(i) => i < self.subscribers@.len() && self.subscribers@[i as int].id == id,
                None => forall|i: int|
                    0 <= i < self.subscribers@.len() ==> (#[trigger] self.subscribers@[i]).id
                        != id,
            },
    {
        let mut i: usize = 0;
        while i < self.subscribers.len()
            invariant
                i <= self.subscribers.len(),
                forall|j: int| 0 <= j < i ==> (#[trigger] self.subscribers@[j]).id != id,
            decreases self.subscribers.len() - i,
        {
            if self.subscribers[i].id == id {
                return Some(i);
            }
            i += 1;
        }
        None
    }

    /// Lets the subscriber named `id` go and releases its queue; the others
    /// stay as they are, in their order. Returns whether it was there.
    pub fn unsubscribe(&mut self, id: u64) -> (gone: bool)
        requires
            old(self).wf(),
        ensures
            final(self).wf(),
            final(self).next_id() == old(self).next_id(),
            match place_of(old(self)@, id) {
                Some(i) => gone && final(self)@ == old(self)@.remove(i),
                None => !gone && final(self)@ == old(self)@,
            },
    {
        match self.position(id) {
            Some(i) => {
                proof {
                    self.lemma_place(id, i as int);
                }
                let _ = self.subscribers.remove(i);
                assert(self@ =~= old(self)@.remove(i as int));
                true
            },
            None => {
                proof {
                    self.lemma_no_place(id);
                }
                false
            },
        }
    }

    proof fn lemma_place(&self, id: u64, i: int)
        requires
            self.wf(),
            0 <= i < self.subscribers@.len(),
            self.subscribers@[i].id == id,
        ensures
            place_of(self@, id) == Some(i),
    {
        assert(self@[i].id == id);
        let chosen = choose|k: int| 0 <= k < self@.len() && (#[trigger] self@[k]).id == id;
        assert(self@[chosen] == self.subscribers@[chosen]@);
        if chosen < i {
            assert(self.subscribers@[chosen].id != self.subscribers@[i].id);
        } else if i < chosen {
            assert(self.subscribers@[i].id != self.subscribers@[chosen].id);
        }
    }

    proof fn lemma_no_place(&self, id: u64)
        requires
            forall|i: int|
                0 <= i < self.subscribers@.len() ==> (#[trigger] self.subscribers@[i]).id != id,
        ensures
            place_of(self@, id) is None,
    {
        assert forall|i: int| 0 <= i < self@.len() implies (#[trigger] self@[i]).id != id by {
            assert(self@[i] == self.subscribers@[i]@);
        }
    }

    /// Offers `message` to every subscriber. Each queue takes it by the
    /// rule of `offered`, whatever the state of the others: a full queue
    /// never holds the broadcast up.
    pub fn broadcast(&mut self, message: &WireMessage)
        requires
            old(self).wf(),
        ensures
            final(self).wf(),
            final(self).next_id() == old(self).next_id(),
            final(self)@ == spec_broadcast(old(self)@, message@),
    {
        let mut i: usize = 0;
        while i < self.subscribers.len()
            invariant
                i <= self.subscribers.len(),
                self.subscribers@.len() == old(self).subscribers@.len(),
                self.next_id == old(self).next_id,
                old(self).wf(),
                forall|j: int|
                    0 <= j < i ==> (#[trigger] self.subscribers@[j])@ == offered(
                        old(self).subscribers@[j]@,
                        message@,
                    ) && self.subscribers@[j].queue@.len() <= self.subscribers@[j].capacity,
                forall|j: int|
                    i <= j < self.subscribers@.len() ==> (#[trigger] self.subscribers@[j]) == old(
                        self,
                    ).subscribers@[j],
            decreases self.subscribers.len() - i,
        {
            let ghost before = self.subscribers@[i as int]@;
            let ghost raw = self.subscribers@[i as int].queue@;
            assert(raw.len() <= self.subscribers@[i as int].capacity);
            let subscriber = &mut self.subscribers[i];
            if subscriber.capacity == 0 {
                if subscriber.lost < u64::MAX {
                    subscriber.lost = subscriber.lost + 1;
                }
            } else {
                if subscriber.queue.len() >= subscriber.capacity {
                    let _ = subscriber.queue.pop_front();
                    if subscriber.lost < u64::MAX {
                        subscriber.lost = subscriber.lost + 1;
                    }
                }
                subscriber.queue.push_back(message.duplicate());
            }
            proof {
                let after = self.subscribers@[i as int];
                assert(after@.queue =~= offered(before, message@).queue);
                assert(after@ == offered(before, message@));
            }
            i += 1;
        }
        proof {
            assert(self@ =~= spec_broadcast(old(self)@, message@));
            assert forall|a: int, b: int| 0 <= a < b < self.subscribers@.len() implies (
            #[trigger] self.subscribers@[a]).id != (#[trigger] self.subscribers@[b]).id by {
                assert(self.subscribers@[a]@.id == old(self).subscribers@[a]@.id);
                assert(self.subscribers@[b]@.id == old(self).subscribers@[b]@.id);
            }
            assert forall|a: int| 0 <= a < self.subscribers@.len() implies (
            #[trigger] self.subscribers@[a]).id < self.next_id by {
                assert(self.subscribers@[a]@.id == old(self).subscribers@[a]@.id);
            }
        }
    }

    /// Hands the oldest message of the subscriber named `id` over, if the
    /// subscriber is there and has one. Nothing else changes.
    pub fn poll(&mut self, id: u64) -> (r: Option<WireMessage>)
        requires
            old(self).wf(),
        ensures
            final(self).wf(),
            final(self).next_id() == old(self).next_id(),
            match place_of(old(self)@, id) {
                Some(i) => if old(self)@[i].queue.len() > 0 {
                    &&& r matches Some(message)
                    &&& message@ == old(self)@[i].queue[0]
                    &&& final(self)@ == old(self)@.update(
                        i,
                        SubscriberView { queue: old(self)@[i].queue.drop_first(), ..old(self)@[i] },
                    )
                } else {
                    r is None && final(self)@ == old(self)@
                },
                None => r is None && final(self)@ == old(self)@,
            },
    {
        match self.position(id) {
            Some(i) => {
                proof {
                    self.lemma_place(id, i as int);
                }
                let ghost before = self.subscribers@[i as int]@;
                let subscriber = &mut self.subscribers[i];
                let message = subscriber.queue.pop_front();
                proof {
                    if message is Some {
                        assert(self.subscribers@[i as int]@.queue =~= before.queue.drop_first());
                        assert(self@ =~= old(self)@.update(
                            i as int,
                            SubscriberView { queue: before.queue.drop_first(), ..before },
                        ));
                    } else {
                        assert(self.subscribers@[i as int]@.queue =~= before.queue);
                        assert(self@ =~= old(self)@);
                    }
                    assert forall|a: int, b: int|
                        0 <= a < b < self.subscribers@.len() implies (
                    #[trigger] self.subscribers@[a]).id != (#[trigger] self.subscribers@[b]).id by {
                        assert(self.subscribers@[a].id == old(self).subscribers@[a].id);
                        assert(self.subscribers@[b].id == old(self).subscribers@[b].id);
                    }
                }
                message
            },
            None => {
                proof {
                    self.lemma_no_place(id);
                }
                None
            },
        }
    }

    /// Turns a change event into a message and offers it to every
    /// subscriber: the current state of the subject is fetched from the
    /// store and encoded. An event whose subject the store does not hold is
    /// dropped and changes nothing.
    pub fn dispatch(&mut self, store: &ProjectionStore, event: &ChangeEvent) -> (r: Dispatched)
        requires
            old(self).wf(),
            store.wf(),
        ensures
            final(self).wf(),
            final(self).next_id() == old(self).next_id(),
            match message_for(store@, *event) {
                Some(message) => r == Dispatched::Delivered && final(self)@ == spec_broadcast(
                    old(self)@,
                    message,
                ),
                None => r == Dispatched::Missing && final(self)@ == old(self)@,
            },
    {
        let message = match event.kind {
            ChangeKind::ListingChanged => match store.fetch_listing(&event.subject) {
                Some(row) => {
                    let updated_at = decimal_text(row.updated_at as u128);
                    WireMessage::Listing(
                        encode_wire_listing(&event.subject, &row.listing, updated_at.as_str()),
                    )
                },
                None => {
                    return Dispatched::Missing;
                },
            },
            ChangeKind::UserAssetsChanged => match store.fetch_user_assets(&event.subject) {
                Some(snapshot) => WireMessage::UserAssets(
                    encode_wire_user_assets(&event.subject, &snapshot),
                ),
                None => {
                    return Dispatched::Missing;
                },
            },
        };
        self.broadcast(&message);
        Dispatched::Delivered
    }
}

/// What a broadcast does to a subscriber depends on that subscriber alone:
/// among whatever others it stands, stalled or not, it ends up the same.
pub proof fn lemma_isolation(
    here: Seq<SubscriberView>,
    there: Seq<SubscriberView>,
    i: int,
    j: int,
    message: WireMessageView,
)
    requires
        0 <= i < here.len(),
        0 <= j < there.len(),
        here[i] == there[j],
    ensures
        spec_broadcast(here, message).len() == here.len(),
        spec_broadcast(here, message)[i] == spec_broadcast(there, message)[j],
        spec_broadcast(here, message)[i] == offered(here[i], message),
{
}

/// A subscriber whose queue has room for `messages` receives every one of
/// them, in the order they were broadcast, behind what it had; a subscriber
/// next to it that never drains its queue changes nothing about that.
pub proof fn lemma_healthy_receives_all(
    subscribers: Seq<SubscriberView>,
    i: int,
    messages: Seq<WireMessageView>,
)
    requires
        0 <= i < subscribers.len(),
        subscribers[i].queue.len() + messages.len() <= subscribers[i].capacity,
    ensures
        spec_broadcast_all(subscribers, messages).len() == subscribers.len(),
        spec_broadcast_all(subscribers, messages)[i].queue == subscribers[i].queue + messages,
        spec_broadcast_all(subscribers, messages)[i].lost == subscribers[i].lost,
        spec_broadcast_all(subscribers, messages)[i].id == subscribers[i].id,
        spec_broadcast_all(subscribers, messages)[i].capacity == subscribers[i].capacity,
    decreases messages.len(),
{
    if messages.len() == 0 {
        assert(subscribers[i].queue + messages =~= subscribers[i].queue);
    } else {
        lemma_healthy_receives_all(subscribers, i, messages.drop_last());
        let before = spec_broadcast_all(subscribers, messages.drop_last());
        assert(before[i].queue.len() < before[i].capacity);
        assert(subscribers[i].queue + messages =~= (subscribers[i].queue
            + messages.drop_last()).push(messages.last()));
    }
}

/// A queue never grows beyond its bound, and a full one keeps the newest
/// messages: after an offer to a queue within its bound the queue is still
/// within it, and unless the bound is zero the message is its last.
pub proof fn lemma_offer_keeps_bound(subscriber: SubscriberView, message: WireMessageView)
    requires
        subscriber.queue.len() <= subscriber.capacity,
    ensures
        offered(subscriber, message).queue.len() <= subscriber.capacity,
        subscriber.capacity > 0 ==> offered(subscriber, message).queue.last() == message,
        offered(subscriber, message).lost >= subscriber.lost,
{
}

/// From the ledger to the subscriber: an event of the understood shape for
/// an account of a tracked program, with a payload that is a listing, leaves
/// a row whose notice, once dispatched, puts into the queue of every
/// subscriber with room the wire message of that very row, with the fields
/// of the payload.
pub proof fn lemma_end_to_end(
    watch: WatchConfig,
    event: AccountUpdate,
    store: StoreView,
    now: u64,
    subscribers: Seq<SubscriberView>,
    i: int,
)
    requires
        listing_due(watch, event),
        decode_error(event.data@) is None,
        0 <= i < subscribers.len(),
        subscribers[i].queue.len() < subscribers[i].capacity,
    ensures
        ({
            let after = spec_ingest(watch, event, store, now);
            let notice = after.1.last();
            &&& notice == ChangeEvent { subject: event.pubkey, kind: ChangeKind::ListingChanged }
            &&& message_for(after.0, notice) matches Some(message)
            &&& message matches WireMessageView::Listing(wire)
            &&& wire == spec_wire(
                event.pubkey,
                listing_of(event.data@),
                decimal_digits(after.0.listings[event.pubkey@].1 as nat),
            )
            &&& spec_broadcast(subscribers, message)[i].queue == subscribers[i].queue.push(message)
        }),
{
}

} // verus!
