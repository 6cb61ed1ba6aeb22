//! Events that components publish to one another, and the subscription
//! table of the event bus: who receives an event, and whether the publisher
//! waits for them.
//!
//! A subscriber receives exactly the events of the kinds it subscribed to.
//! `publish` hands every subscriber a delivery it need not acknowledge;
//! `publish_sync` hands synchronous subscribers a delivery the publisher
//! waits on, and the others one it does not.

use vstd::prelude::*;

use crate::keyed::KeyedMap;
use crate::types::{is_v4_uuid, random_uuid, MessageFlag};

verus! {

/// How events reach a subscriber.
#[derive(Debug, Clone, Copy, PartialEq, Eq, Structural)]
pub enum SubscriptionType {
    /// Events are delivered without waiting for acknowledgment.
    Async,
    /// A synchronous publisher waits until the subscriber acknowledges.
    Sync,
}

/// Event kinds, for subscription filtering.
#[derive(Debug, Clone, Copy, PartialEq, Eq, Hash, Structural)]
pub enum EventKind {
    MailboxCreated,
    MailboxDeleted,
    MailboxRenamed,
    MessageCreated,
    MessageModified,
    MessageDeleted,
}

/// Events that can occur in the system. Dates are milliseconds since the
/// Unix epoch.
#[derive(Debug, Clone)]
pub enum Event {
    /// A new mailbox was created.
    MailboxCreated { username: String, mailbox: String },
    /// A mailbox was deleted.
    MailboxDeleted { username: String, mailbox: String },
    /// A mailbox was renamed.
    MailboxRenamed { username: String, old_name: String, new_name: String },
    /// A new message was added to the mail store.
    MessageCreated {
        username: String,
        mailbox: String,
        unique_id: String,
        /// Path of the message file, relative to the mail store root.
        path: String,
        flags: Vec<MessageFlag>,
        /// Whether this is a new (unseen) message.
        is_new: bool,
        from: String,
        to: String,
        subject: String,
        body_preview: String,
        /// Message size in bytes.
        size: usize,
        /// When the message was added.
        internal_date: i64,
    },
    /// A message was modified (flags changed).
    MessageModified { username: String, mailbox: String, unique_id: String, flags: Vec<MessageFlag> },
    /// A message was deleted.
    MessageDeleted { username: String, mailbox: String, unique_id: String },
}

/// The kind of an event.
pub open spec fn event_kind(e: Event) -> EventKind {
    match e {
        Event::MailboxCreated { .. } => EventKind::MailboxCreated,
        Event::MailboxDeleted { .. } => EventKind::MailboxDeleted,
        Event::MailboxRenamed { .. } => EventKind::MailboxRenamed,
        Event::MessageCreated { .. } => EventKind::MessageCreated,
        Event::MessageModified { .. } => EventKind::MessageModified,
        Event::MessageDeleted { .. } => EventKind::MessageDeleted,
    }
}

impl Event {
    /// The kind of this event.
    pub fn kind(&self) -> (k: EventKind)
        ensures
            k == event_kind(*self),
    {
        match self {
            Event::MailboxCreated { .. } => EventKind::MailboxCreated,
            Event::MailboxDeleted { .. } => EventKind::MailboxDeleted,
            Event::MailboxRenamed { .. } => EventKind::MailboxRenamed,
            Event::MessageCreated { .. } => EventKind::MessageCreated,
            Event::MessageModified { .. } => EventKind::MessageModified,
            Event::MessageDeleted { .. } => EventKind::MessageDeleted,
        }
    }
}

/// Handle of a subscription, used to unsubscribe (the bits of a random UUID).
#[derive(Debug, Clone, Copy, PartialEq, Eq, Hash, Structural)]
pub struct SubscriptionId(pub u128);

/// How one delivery is made.
#[derive(Debug, Clone, Copy, PartialEq, Eq, Structural)]
pub enum DeliveryMode {
    /// The publisher does not wait.
    Async,
    /// The publisher waits for the subscriber's acknowledgment.
    Sync,
}

/// The mode of a delivery to a subscriber of type `t`: only a synchronous
/// publication to a synchronous subscriber waits.
pub open spec fn delivery_mode(t: SubscriptionType, sync_publish: bool) -> DeliveryMode {
    if sync_publish && t == SubscriptionType::Sync {
        DeliveryMode::Sync
    } else {
        DeliveryMode::Async
    }
}

/// The subscriptions of the event bus: for each subscription, the kinds it
/// receives and how.
pub struct Subscriptions {
    table: KeyedMap<u128, (Vec<EventKind>, SubscriptionType)>,
}

impl Subscriptions {
    /// Each subscription's kinds and type.
    pub closed spec fn subscribers(&self) -> Map<u128, (Seq<EventKind>, SubscriptionType)> {
        self.table@.map_values(|s: (Vec<EventKind>, SubscriptionType)| (s.0@, s.1))
    }

    /// The subscriptions in delivery order.
    pub closed spec fn order(&self) -> Seq<u128> {
        self.table.key_seq()
    }

    pub closed spec fn wf(&self) -> bool {
        self.table.wf()
    }

    /// The subscriptions in delivery order are distinct and are all the
    /// subscriptions.
    pub proof fn lemma_order(&self)
        requires
            self.wf(),
        ensures
            self.order().no_duplicates(),
            forall|id: u128| #[trigger] self.subscribers().contains_key(id) <==> self.order().contains(
                id,
            ),
    {
        self.table.lemma_key_seq();
    }

    /// The subscriptions that receive an event of kind `kind`, in delivery order.
    pub open spec fn receivers(&self, kind: EventKind) -> Seq<u128> {
        self.order().filter(|id: u128| self.subscribers()[id].0.contains(kind))
    }

    /// No subscriptions.
    pub fn new() -> (r: Self)
        ensures
            r.wf(),
            r.subscribers() == Map::<u128, (Seq<EventKind>, SubscriptionType)>::empty(),
    {
        let r = Subscriptions { table: KeyedMap::new() };
        assert(r.subscribers() =~= Map::<u128, (Seq<EventKind>, SubscriptionType)>::empty());
        r
    }

    /// Adds a subscription under `id` to the kinds `kinds`.
    pub fn subscribe_as(&mut self, id: SubscriptionId, kinds: Vec<EventKind>, t: SubscriptionType)
        requires
            old(self).wf(),
        ensures
            final(self).wf(),
            final(self).subscribers() == old(self).subscribers().insert(id.0, (kinds@, t)),
    {
        let ghost before = self.subscribers();
        let ghost k = kinds@;
        self.table.insert(id.0, (kinds, t));
        assert(self.subscribers() =~= before.insert(id.0, (k, t)));
    }

    /// Adds a subscription to the kinds `kinds` under a fresh random id,
    /// which it returns.
    pub fn subscribe(&mut self, kinds: Vec<EventKind>, t: SubscriptionType) -> (id: SubscriptionId)
        requires
            old(self).wf(),
        ensures
            final(self).wf(),
            final(self).subscribers() == old(self).subscribers().insert(id.0, (kinds@, t)),
            is_v4_uuid(id.0),
    {
        let id = SubscriptionId(random_uuid());
        self.subscribe_as(id, kinds, t);
        id
    }

    /// Removes a subscription; removing one that does not exist is no error.
    pub fn unsubscribe(&mut self, id: SubscriptionId)
        requires
            old(self).wf(),
        ensures
            final(self).wf(),
            final(self).subscribers() == old(self).subscribers().remove(id.0),
    {
        let ghost before = self.subscribers();
        self.table.remove(&id.0);
        assert(self.subscribers() =~= before.remove(id.0));
    }

    /// The deliveries of an event of kind `kind`: one per subscription that
    /// receives that kind, in delivery order, each with the mode its type
    /// and the publication (`sync_publish` for `publish_sync`) call for.
    pub fn deliveries(&self, kind: EventKind, sync_publish: bool) -> (r: Vec<
        (SubscriptionId, DeliveryMode),
    >)
        requires
            self.wf(),
        ensures
            r@.len() == self.receivers(kind).len(),
            forall|i: int|
                0 <= i < r@.len() ==> {
                    &&& (#[trigger] r@[i]).0.0 == self.receivers(kind)[i]
                    &&& r@[i].1 == delivery_mode(
                        self.subscribers()[self.receivers(kind)[i]].1,
                        sync_publish,
                    )
                },
    {
        let ghost keys = self.order();
        let ghost pred = |id: u128| self.subscribers()[id].0.contains(kind);
        let mut out: Vec<(SubscriptionId, DeliveryMode)> = Vec::new();
        let n = self.table.size();
        let mut i: usize = 0;
        while i < n
            invariant
                self.wf(),
                keys == self.order(),
                n == keys.len(),
                i <= n,
                pred == (|id: u128| self.subscribers()[id].0.contains(kind)),
                out@.len() == keys.take(i as int).filter(pred).len(),
                forall|j: int|
                    0 <= j < out@.len() ==> {
                        &&& (#[trigger] out@[j]).0.0 == keys.take(i as int).filter(pred)[j]
                        &&& out@[j].1 == delivery_mode(
                            self.subscribers()[keys.take(i as int).filter(pred)[j]].1,
                            sync_publish,
                        )
                    },
            decreases n - i,
        {
            let id = *self.table.key_at(i);
            let entry = self.table.value_at(i);
            proof {
                assert(keys.take(i as int + 1) =~= keys.take(i as int).push(keys[i as int]));
                keys.take(i as int).lemma_filter_push(keys[i as int], pred);
                assert(self.subscribers()[keys[i as int]] == (entry.0@, entry.1));
            }
            let mut found = false;
            let mut j: usize = 0;
            while j < entry.0.len()
                invariant
                    j <= entry.0@.len(),
                    found == exists|k: int| 0 <= k < j && entry.0@[k] == kind,
                decreases entry.0@.len() - j,
            {
                if entry.0[j] == kind {
                    found = true;
                }
                j = j + 1;
            }
            if found {
                let mode = if sync_publish && entry.1 == SubscriptionType::Sync {
                    DeliveryMode::Sync
                } else {
                    DeliveryMode::Async
                };
                out.push((SubscriptionId(id), mode));
            }
            i = i + 1;
        }
        assert(keys.take(n as int) =~= keys);
        out
    }
}

/// A subscriber receives an event exactly when it subscribed to the
/// event's kind, and at most once.
pub proof fn law_receivers(subs: Subscriptions, kind: EventKind)
    requires
        subs.wf(),
    ensures
        subs.receivers(kind).no_duplicates(),
        forall|id: u128| #[trigger]
            subs.receivers(kind).contains(id) <==> (subs.subscribers().contains_key(id)
                && subs.subscribers()[id].0.contains(kind)),
{
    subs.lemma_order();
    crate::keyed::lemma_filter_keeps(
        subs.order(),
        |id: u128| subs.subscribers()[id].0.contains(kind),
    );
}

/// `publish` never waits for a subscriber; `publish_sync` waits exactly for
/// the synchronous ones.
pub proof fn law_who_is_waited_for(t: SubscriptionType)
    ensures
        delivery_mode(t, false) == DeliveryMode::Async,
        delivery_mode(t, true) == DeliveryMode::Sync <==> t == SubscriptionType::Sync,
{
}

} // verus!
