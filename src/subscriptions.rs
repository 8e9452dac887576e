//! Subscriptions of UI targets to conversation event streams.
//!
//! At most one subscription exists per conversation. Each one is served by a
//! delivery task (a pump) that the caller runs: the registry decides, for each
//! thing the pump observes, whether to forward an event and where, or to stop.
//! Cancellation signals and conversation links are held here as opaque values
//! of the caller's types `S` and `H`.
use vstd::prelude::*;
use std::collections::HashMap;

verus! {

/// Identifier of one subscription.
pub type SubscriptionId = u128;

/// Identifier of one conversation.
pub type ConversationKey = u128;

/// A non-owning link to a conversation object, with a token that tells
/// conversation objects apart: two handles are to the same object exactly
/// where their tokens are equal.
#[derive(Debug)]
pub struct ConversationHandle<H> {
    pub identity: u64,
    pub link: H,
}

/// What the registry keeps of one live subscription.
#[derive(Debug)]
pub struct SubscriptionRecord<H> {
    pub conversation: ConversationKey,
    pub target: String,
    pub handle: ConversationHandle<H>,
}

/// Result of `subscribe`.
#[derive(Debug)]
pub enum SubscribeOutcome<S> {
    /// The conversation already streams to the same target from the same
    /// object; nothing changed.
    Existing(SubscriptionId),
    /// A new subscription was registered. Where one for the conversation was
    /// replaced, its cancellation signal is handed back to be triggered.
    Created { id: SubscriptionId, replaced: Option<S> },
    /// The identifier drawn for the new subscription is already in use;
    /// nothing changed.
    IdTaken,
}

/// Why `unsubscribe` failed.
#[derive(Debug, Clone, Copy, PartialEq, Eq)]
pub enum SubscriptionError {
    NotFound(SubscriptionId),
}

/// What a pump observed.
#[derive(Debug, Clone, Copy, PartialEq, Eq)]
pub enum PumpEvent {
    /// Its cancellation signal fired.
    Cancelled,
    /// The conversation's event stream ended or failed.
    StreamEnded,
    /// The conversation produced an event; `turn_diff` tells whether it
    /// reports that a turn produced a diff.
    Event { turn_diff: bool },
}

/// What a pump does next.
#[derive(Debug, PartialEq, Eq)]
pub enum PumpAction {
    /// Terminate; the subscription's bookkeeping has been released.
    Stop,
    /// Forward the event to `target`; where `capture_snapshot` holds, also
    /// capture a turn snapshot for the conversation.
    Deliver { target: String, capture_snapshot: bool },
}

/// The registry's bookkeeping, as maps.
pub struct RegistryView<S, H> {
    /// Cancellation signal of each subscription.
    pub signals: Map<SubscriptionId, S>,
    /// Subscription of each subscribed conversation.
    pub conversations: Map<ConversationKey, SubscriptionId>,
    /// Conversation, target and handle of each live subscription.
    pub records: Map<SubscriptionId, SubscriptionRecord<H>>,
}

impl<S, H> RegistryView<S, H> {
    /// The conversation index and the records describe each other, and each
    /// live subscription has a cancellation signal.
    pub open spec fn wf(self) -> bool {
        &&& forall|c: ConversationKey| #[trigger]
            self.conversations.contains_key(c) ==> self.records.contains_key(self.conversations[c])
                && self.records[self.conversations[c]].conversation == c
        &&& forall|id: SubscriptionId| #[trigger]
            self.records.contains_key(id) ==> self.conversations.contains_key(
                self.records[id].conversation,
            ) && self.conversations[self.records[id].conversation] == id
                && self.signals.contains_key(id)
    }

    /// The conversation has a subscription to `target` from the object whose
    /// token is `identity`.
    pub open spec fn same_subscription(
        self,
        conversation: ConversationKey,
        identity: u64,
        target: Seq<char>,
    ) -> bool {
        &&& self.conversations.contains_key(conversation)
        &&& self.records[self.conversations[conversation]].target@ == target
        &&& self.records[self.conversations[conversation]].handle.identity == identity
    }

    /// Drops the record of `id` and the index entry of its conversation; the
    /// cancellation signal stays.
    pub open spec fn release(self, id: SubscriptionId) -> RegistryView<S, H> {
        if self.records.contains_key(id) {
            RegistryView {
                signals: self.signals,
                conversations: self.conversations.remove(self.records[id].conversation),
                records: self.records.remove(id),
            }
        } else {
            self
        }
    }

    /// The bookkeeping after `unsubscribe(id)`.
    pub open spec fn after_unsubscribe(self, id: SubscriptionId) -> RegistryView<S, H> {
        RegistryView { signals: self.signals.remove(id), ..self.release(id) }
    }

    /// The bookkeeping with a new subscription `id` registered.
    pub open spec fn register(
        self,
        id: SubscriptionId,
        record: SubscriptionRecord<H>,
        signal: S,
    ) -> RegistryView<S, H> {
        RegistryView {
            signals: self.signals.insert(id, signal),
            conversations: self.conversations.insert(record.conversation, id),
            records: self.records.insert(id, record),
        }
    }

    /// What `subscribe` returns where it drew `fresh_id`.
    pub open spec fn subscribe_outcome(
        self,
        conversation: ConversationKey,
        identity: u64,
        target: Seq<char>,
        fresh_id: SubscriptionId,
    ) -> SubscribeOutcome<S> {
        if self.same_subscription(conversation, identity, target) {
            SubscribeOutcome::Existing(self.conversations[conversation])
        } else if self.signals.contains_key(fresh_id) {
            SubscribeOutcome::IdTaken
        } else if self.conversations.contains_key(conversation) {
            SubscribeOutcome::Created {
                id: fresh_id,
                replaced: Some(self.signals[self.conversations[conversation]]),
            }
        } else {
            SubscribeOutcome::Created { id: fresh_id, replaced: None }
        }
    }

    /// The bookkeeping after `subscribe` drew `fresh_id`: any other
    /// subscription of the conversation is removed and the new one registered.
    pub open spec fn after_subscribe(
        self,
        record: SubscriptionRecord<H>,
        signal: S,
        fresh_id: SubscriptionId,
    ) -> RegistryView<S, H> {
        let c = record.conversation;
        if self.same_subscription(c, record.handle.identity, record.target@) || self.signals.contains_key(
            fresh_id,
        ) {
            self
        } else if self.conversations.contains_key(c) {
            self.after_unsubscribe(self.conversations[c]).register(fresh_id, record, signal)
        } else {
            self.register(fresh_id, record, signal)
        }
    }

    /// What the pump of `id` does on `event`.
    pub open spec fn pump_action(self, id: SubscriptionId, event: PumpEvent) -> PumpAction {
        match event {
            PumpEvent::Event { turn_diff } => if self.records.contains_key(id) {
                PumpAction::Deliver { target: self.records[id].target, capture_snapshot: turn_diff }
            } else {
                PumpAction::Stop
            },
            _ => PumpAction::Stop,
        }
    }

    /// The bookkeeping after the pump of `id` handled `event`.
    pub open spec fn after_pump(self, id: SubscriptionId, event: PumpEvent) -> RegistryView<S, H> {
        if self.pump_action(id, event) is Stop {
            self.release(id)
        } else {
            self
        }
    }
}

/// Draws a fresh subscription identifier.
/// Relies on uuid's `Uuid::new_v4` (random) and `Uuid::as_u128`.
#[verifier::external_body]
fn draw_subscription_id() -> (r: SubscriptionId) {
    uuid::Uuid::new_v4().as_u128()
}

/// Bookkeeping of the subscriptions of conversations to UI targets.
pub struct EventSubscriptionManager<S, H> {
    subscriptions: HashMap<SubscriptionId, S>,
    conversation_subscriptions: HashMap<ConversationKey, SubscriptionId>,
    records: HashMap<SubscriptionId, SubscriptionRecord<H>>,
}

impl<S, H> View for EventSubscriptionManager<S, H> {
    type V = RegistryView<S, H>;

    closed spec fn view(&self) -> RegistryView<S, H> {
        RegistryView {
            signals: self.subscriptions@,
            conversations: self.conversation_subscriptions@,
            records: self.records@,
        }
    }
}

impl<S, H> EventSubscriptionManager<S, H> {
    /// An empty registry.
    pub fn new() -> (r: Self)
        ensures
            r@.wf(),
            r@.signals == Map::<SubscriptionId, S>::empty(),
            r@.conversations == Map::<ConversationKey, SubscriptionId>::empty(),
            r@.records == Map::<SubscriptionId, SubscriptionRecord<H>>::empty(),
    {
        EventSubscriptionManager {
            subscriptions: HashMap::new(),
            conversation_subscriptions: HashMap::new(),
            records: HashMap::new(),
        }
    }

    /// The subscription of `conversation`, if it has one.
    pub fn subscription_for(&self, conversation: ConversationKey) -> (r: Option<SubscriptionId>)
        ensures
            match r {
                Some(id) => self@.conversations.contains_key(conversation)
                    && self@.conversations[conversation] == id,
                None => !self@.conversations.contains_key(conversation),
            },
    {
        match self.conversation_subscriptions.get(&conversation) {
            Some(id) => Some(*id),
            None => None,
        }
    }

    /// The target events of subscription `id` go to, while it is live.
    pub fn target_of(&self, id: SubscriptionId) -> (r: Option<&String>)
        ensures
            match r {
                Some(t) => self@.records.contains_key(id) && *t == self@.records[id].target,
                None => !self@.records.contains_key(id),
            },
    {
        match self.records.get(&id) {
            Some(record) => Some(&record.target),
            None => None,
        }
    }

    /// Whether `id` has a cancellation signal registered.
    pub fn has_subscription(&self, id: SubscriptionId) -> (r: bool)
        ensures
            r == self@.signals.contains_key(id),
    {
        self.subscriptions.contains_key(&id)
    }

    /// The subscription of `conversation` if it goes to `target` from the
    /// object whose token is `identity`.
    fn matching_subscription(&self, conversation: ConversationKey, identity: u64, target: &String) -> (r:
        Option<SubscriptionId>)
        requires
            self@.wf(),
        ensures
            match r {
                Some(id) => self@.same_subscription(conversation, identity, target@) && id
                    == self@.conversations[conversation],
                None => !self@.same_subscription(conversation, identity, target@),
            },
    {
        match self.conversation_subscriptions.get(&conversation) {
            Some(id) => match self.records.get(id) {
                Some(record) => {
                    if record.target == *target && record.handle.identity == identity {
                        Some(*id)
                    } else {
                        None
                    }
                },
                None => None,
            },
            None => None,
        }
    }

    /// Drops the record of `id` and its conversation's index entry, as the
    /// pump of `id` does when it stops. Dropping what is absent does nothing.
    fn release(&mut self, id: SubscriptionId)
        ensures
            final(self)@ == old(self)@.release(id),
    {
        let ghost before = self@;
        match self.records.remove(&id) {
            Some(record) => {
                assert(before.records.contains_key(id) && before.records[id] == record);
                self.conversation_subscriptions.remove(&record.conversation);
                assert(self@ =~= before.release(id));
            },
            None => {
                assert(!before.records.contains_key(id));
                assert(before.records.remove(id) =~= before.records);
                assert(self@ =~= before.release(id));
            },
        }
    }

    /// Removes subscription `id` and hands back its cancellation signal, to be
    /// triggered by the caller; the pump then stops on its own. Fails where
    /// `id` has no signal. Its bookkeeping is scrubbed either way.
    pub fn unsubscribe(&mut self, id: SubscriptionId) -> (r: Result<S, SubscriptionError>)
        requires
            old(self)@.wf(),
        ensures
            final(self)@.wf(),
            final(self)@ == old(self)@.after_unsubscribe(id),
            match r {
                Ok(signal) => old(self)@.signals.contains_key(id) && signal == old(
                    self,
                )@.signals[id],
                Err(e) => !old(self)@.signals.contains_key(id) && e == SubscriptionError::NotFound(
                    id,
                ),
            },
    {
        let signal = self.subscriptions.remove(&id);
        self.release(id);
        proof {
            lemma_unsubscribe_wf(old(self)@, id);
        }
        match signal {
            Some(s) => Ok(s),
            None => Err(SubscriptionError::NotFound(id)),
        }
    }

    /// Subscribes `conversation` to `target` with `fresh_id` as the new
    /// subscription's identifier. Where the conversation already streams to
    /// that target from the same object, its subscription is returned and
    /// nothing changes. Otherwise, unless `fresh_id` is in use, any
    /// subscription of the conversation is removed (its signal handed back)
    /// and the new one registered with `signal`.
    pub fn subscribe_with_id(
        &mut self,
        conversation: ConversationKey,
        handle: ConversationHandle<H>,
        target: String,
        signal: S,
        fresh_id: SubscriptionId,
    ) -> (r: SubscribeOutcome<S>)
        requires
            old(self)@.wf(),
        ensures
            final(self)@.wf(),
            r == old(self)@.subscribe_outcome(conversation, handle.identity, target@, fresh_id),
            final(self)@ == old(self)@.after_subscribe(
                SubscriptionRecord { conversation, target, handle },
                signal,
                fresh_id,
            ),
    {
        let identity = handle.identity;
        if let Some(existing) = self.matching_subscription(conversation, identity, &target) {
            return SubscribeOutcome::Existing(existing);
        }
        if self.subscriptions.contains_key(&fresh_id) {
            return SubscribeOutcome::IdTaken;
        }
        let replaced = match self.subscription_for(conversation) {
            Some(stale) => match self.unsubscribe(stale) {
                Ok(s) => Some(s),
                Err(_) => None,
            },
            None => None,
        };
        let ghost between = self@;
        proof {
            lemma_unsubscribe_wf(old(self)@, old(self)@.conversations[conversation]);
            lemma_register_wf(between, fresh_id, SubscriptionRecord { conversation, target, handle }, signal);
        }
        let record = SubscriptionRecord { conversation, target, handle };
        self.subscriptions.insert(fresh_id, signal);
        self.conversation_subscriptions.insert(conversation, fresh_id);
        self.records.insert(fresh_id, record);
        assert(self@ == between.register(fresh_id, record, signal));
        SubscribeOutcome::Created { id: fresh_id, replaced }
    }

    /// `subscribe_with_id` with a freshly drawn random identifier.
    pub fn subscribe(
        &mut self,
        conversation: ConversationKey,
        handle: ConversationHandle<H>,
        target: String,
        signal: S,
    ) -> (r: SubscribeOutcome<S>)
        requires
            old(self)@.wf(),
        ensures
            final(self)@.wf(),
            old(self)@.same_subscription(conversation, handle.identity, target@) ==> r
                == SubscribeOutcome::<S>::Existing(old(self)@.conversations[conversation])
                && final(self)@ == old(self)@,
            exists|fresh_id: SubscriptionId|
                r == old(self)@.subscribe_outcome(conversation, handle.identity, target@, fresh_id)
                    && final(self)@ == old(self)@.after_subscribe(
                    SubscriptionRecord { conversation, target, handle },
                    signal,
                    fresh_id,
                ),
    {
        if let Some(existing) = self.matching_subscription(conversation, handle.identity, &target) {
            // no identifier is drawn here; any one witnesses the outcome
            let ghost record = SubscriptionRecord { conversation, target, handle };
            assert(self@ == self@.after_subscribe(record, signal, 0));
            return SubscribeOutcome::Existing(existing);
        }
        let fresh_id = draw_subscription_id();
        self.subscribe_with_id(conversation, handle, target, signal, fresh_id)
    }

    /// Decides what the pump of subscription `id` does with what it observed.
    /// On cancellation or the end of the stream it releases the
    /// subscription's bookkeeping and stops. An event is forwarded to the
    /// target recorded for the subscription while it is live; a pump whose
    /// subscription was removed stops instead.
    pub fn pump_step(&mut self, id: SubscriptionId, event: PumpEvent) -> (r: PumpAction)
        requires
            old(self)@.wf(),
        ensures
            final(self)@.wf(),
            r == old(self)@.pump_action(id, event),
            final(self)@ == old(self)@.after_pump(id, event),
    {
        match event {
            PumpEvent::Event { turn_diff } => match self.records.get(&id) {
                Some(record) => PumpAction::Deliver {
                    target: record.target.clone(),
                    capture_snapshot: turn_diff,
                },
                None => PumpAction::Stop,
            },
            _ => {
                self.release(id);
                PumpAction::Stop
            },
        }
    }
}

/// Removing a subscription keeps the bookkeeping consistent.
proof fn lemma_unsubscribe_wf<S, H>(v: RegistryView<S, H>, id: SubscriptionId)
    requires
        v.wf(),
    ensures
        v.release(id).wf(),
        v.after_unsubscribe(id).wf(),
{
    let w = v.after_unsubscribe(id);
    assert forall|c: ConversationKey| #[trigger] w.conversations.contains_key(c) implies w.records.contains_key(
        w.conversations[c],
    ) && w.records[w.conversations[c]].conversation == c by {
        assert(v.conversations.contains_key(c));
        assert(v.records.contains_key(v.conversations[c]));
    }
    assert forall|x: SubscriptionId| #[trigger] w.records.contains_key(x) implies w.conversations.contains_key(
        w.records[x].conversation,
    ) && w.conversations[w.records[x].conversation] == x && w.signals.contains_key(x) by {
        assert(v.records.contains_key(x));
    }
}

/// Registering a subscription under an unused identifier, for a conversation
/// without one, keeps the bookkeeping consistent.
proof fn lemma_register_wf<S, H>(
    v: RegistryView<S, H>,
    id: SubscriptionId,
    record: SubscriptionRecord<H>,
    signal: S,
)
    requires
        v.wf(),
        !v.signals.contains_key(id),
        !v.conversations.contains_key(record.conversation),
    ensures
        v.register(id, record, signal).wf(),
{
    let w = v.register(id, record, signal);
    assert forall|c: ConversationKey| #[trigger] w.conversations.contains_key(c) implies w.records.contains_key(
        w.conversations[c],
    ) && w.records[w.conversations[c]].conversation == c by {
        if c != record.conversation {
            assert(v.conversations.contains_key(c));
            assert(v.records.contains_key(v.conversations[c]));
        }
    }
    assert forall|x: SubscriptionId| #[trigger] w.records.contains_key(x) implies w.conversations.contains_key(
        w.records[x].conversation,
    ) && w.conversations[w.records[x].conversation] == x && w.signals.contains_key(x) by {
        if x != id {
            assert(v.records.contains_key(x));
        }
    }
}

/// Subscribing a conversation twice to the same target from the same object
/// gives the same subscription: the second call returns it as existing,
/// registers nothing and so starts no second pump.
pub proof fn lemma_resubscribe_is_idempotent<S, H>(
    v: RegistryView<S, H>,
    first: SubscriptionRecord<H>,
    signal: S,
    fresh_id: SubscriptionId,
    second: SubscriptionRecord<H>,
    second_signal: S,
    second_fresh_id: SubscriptionId,
)
    requires
        v.wf(),
        second.conversation == first.conversation,
        second.target@ == first.target@,
        second.handle.identity == first.handle.identity,
    ensures
        ({
            let c = first.conversation;
            let w = v.after_subscribe(first, signal, fresh_id);
            let again = w.subscribe_outcome(c, second.handle.identity, second.target@, second_fresh_id);
            let unchanged = w.after_subscribe(second, second_signal, second_fresh_id) == w;
            &&& w.wf()
            &&& match v.subscribe_outcome(c, first.handle.identity, first.target@, fresh_id) {
                SubscribeOutcome::Existing(id) => again == SubscribeOutcome::<S>::Existing(id)
                    && unchanged,
                SubscribeOutcome::Created { id, .. } => again == SubscribeOutcome::<S>::Existing(id)
                    && unchanged,
                SubscribeOutcome::IdTaken => w == v,
            }
        }),
{
    let c = first.conversation;
    if !v.same_subscription(c, first.handle.identity, first.target@) && !v.signals.contains_key(
        fresh_id,
    ) {
        if v.conversations.contains_key(c) {
            let u = v.after_unsubscribe(v.conversations[c]);
            lemma_unsubscribe_wf(v, v.conversations[c]);
            assert(!u.conversations.contains_key(c));
            lemma_register_wf(u, fresh_id, first, signal);
        } else {
            lemma_register_wf(v, fresh_id, first, signal);
        }
    }
}

/// Subscribing an already subscribed conversation to another target cancels
/// the old subscription (its signal is handed back and it is gone from every
/// map) and returns a new one; from then on the old pump delivers nothing and
/// every event of the conversation goes to the new target.
pub proof fn lemma_new_target_replaces<S, H>(
    v: RegistryView<S, H>,
    record: SubscriptionRecord<H>,
    signal: S,
    fresh_id: SubscriptionId,
)
    requires
        v.wf(),
        v.conversations.contains_key(record.conversation),
        v.records[v.conversations[record.conversation]].target@ != record.target@,
        !v.signals.contains_key(fresh_id),
    ensures
        ({
            let c = record.conversation;
            let old_id = v.conversations[c];
            let w = v.after_subscribe(record, signal, fresh_id);
            &&& v.subscribe_outcome(c, record.handle.identity, record.target@, fresh_id)
                == SubscribeOutcome::Created { id: fresh_id, replaced: Some(v.signals[old_id]) }
            &&& fresh_id != old_id
            &&& w.wf()
            &&& !w.signals.contains_key(old_id)
            &&& !w.records.contains_key(old_id)
            &&& w.conversations[c] == fresh_id
            &&& forall|turn_diff: bool|
                w.pump_action(old_id, PumpEvent::Event { turn_diff }) == PumpAction::Stop
            &&& forall|id: SubscriptionId, turn_diff: bool|
                w.records.contains_key(id) && w.records[id].conversation == c ==> id == fresh_id
                    && w.pump_action(id, PumpEvent::Event { turn_diff }) == (PumpAction::Deliver {
                    target: record.target,
                    capture_snapshot: turn_diff,
                })
        }),
{
    let c = record.conversation;
    let old_id = v.conversations[c];
    let u = v.after_unsubscribe(old_id);
    lemma_unsubscribe_wf(v, old_id);
    assert(!u.conversations.contains_key(c));
    lemma_register_wf(u, fresh_id, record, signal);
    let w = v.after_subscribe(record, signal, fresh_id);
    assert forall|id: SubscriptionId, turn_diff: bool|
        w.records.contains_key(id) && w.records[id].conversation == c implies id == fresh_id
            && w.pump_action(id, PumpEvent::Event { turn_diff }) == (PumpAction::Deliver {
            target: record.target,
            capture_snapshot: turn_diff,
        }) by {
        assert(w.conversations.contains_key(w.records[id].conversation));
    }
}

/// Unsubscribing an identifier that has no subscription changes nothing
/// (and `unsubscribe` reports it as not found).
pub proof fn lemma_unsubscribe_unknown<S, H>(v: RegistryView<S, H>, id: SubscriptionId)
    requires
        v.wf(),
        !v.signals.contains_key(id),
    ensures
        v.after_unsubscribe(id) == v,
{
    assert(!v.records.contains_key(id));
    assert(v.signals.remove(id) =~= v.signals);
}

/// At most one live subscription exists per conversation, and every live
/// subscription has a cancellation signal.
pub proof fn lemma_one_subscription_per_conversation<S, H>(
    v: RegistryView<S, H>,
    a: SubscriptionId,
    b: SubscriptionId,
)
    requires
        v.wf(),
        v.records.contains_key(a),
        v.records.contains_key(b),
        v.records[a].conversation == v.records[b].conversation,
    ensures
        a == b,
        v.signals.contains_key(a),
{
}

} // verus!
