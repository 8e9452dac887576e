use codex_bridge::subscriptions::{
    ConversationHandle, EventSubscriptionManager, PumpAction, PumpEvent, SubscribeOutcome,
    SubscriptionError,
};

fn handle(identity: u64) -> ConversationHandle<&'static str> {
    ConversationHandle { identity, link: "conversation" }
}

fn target(t: &str) -> String {
    t.to_string()
}

#[test]
fn resubscribe_same_target_returns_same_id() {
    let mut reg: EventSubscriptionManager<u32, &str> = EventSubscriptionManager::new();
    let first = reg.subscribe_with_id(7, handle(1), target("win-a"), 10, 100);
    assert!(matches!(first, SubscribeOutcome::Created { id: 100, replaced: None }));
    let second = reg.subscribe_with_id(7, handle(1), target("win-a"), 11, 200);
    assert!(matches!(second, SubscribeOutcome::Existing(100)));
    assert!(!reg.has_subscription(200));
    assert_eq!(reg.subscription_for(7), Some(100));
}

#[test]
fn new_target_replaces_subscription() {
    let mut reg: EventSubscriptionManager<u32, &str> = EventSubscriptionManager::new();
    reg.subscribe_with_id(7, handle(1), target("win-a"), 10, 100);
    let replaced = reg.subscribe_with_id(7, handle(1), target("win-b"), 11, 200);
    assert!(matches!(replaced, SubscribeOutcome::Created { id: 200, replaced: Some(10) }));
    assert!(!reg.has_subscription(100));
    assert_eq!(reg.target_of(100), None);
    assert_eq!(reg.target_of(200), Some(&target("win-b")));
    assert_eq!(reg.subscription_for(7), Some(200));
    // the old pump delivers nothing more, the new one delivers to the new target
    assert_eq!(reg.pump_step(100, PumpEvent::Event { turn_diff: false }), PumpAction::Stop);
    assert_eq!(
        reg.pump_step(200, PumpEvent::Event { turn_diff: false }),
        PumpAction::Deliver { target: target("win-b"), capture_snapshot: false }
    );
    // the old pump's cleanup leaves the new subscription alone
    assert_eq!(reg.pump_step(100, PumpEvent::Cancelled), PumpAction::Stop);
    assert_eq!(reg.subscription_for(7), Some(200));
}

#[test]
fn new_conversation_object_replaces_subscription() {
    let mut reg: EventSubscriptionManager<u32, &str> = EventSubscriptionManager::new();
    reg.subscribe_with_id(7, handle(1), target("win-a"), 10, 100);
    let replaced = reg.subscribe_with_id(7, handle(2), target("win-a"), 11, 200);
    assert!(matches!(replaced, SubscribeOutcome::Created { id: 200, replaced: Some(10) }));
}

#[test]
fn unsubscribe_unknown_is_not_found() {
    let mut reg: EventSubscriptionManager<u32, &str> = EventSubscriptionManager::new();
    reg.subscribe_with_id(7, handle(1), target("win-a"), 10, 100);
    assert_eq!(reg.unsubscribe(999), Err(SubscriptionError::NotFound(999)));
    assert!(reg.has_subscription(100));
    assert_eq!(reg.subscription_for(7), Some(100));
    assert_eq!(reg.target_of(100), Some(&target("win-a")));
}

#[test]
fn unsubscribe_hands_back_signal() {
    let mut reg: EventSubscriptionManager<u32, &str> = EventSubscriptionManager::new();
    reg.subscribe_with_id(7, handle(1), target("win-a"), 10, 100);
    assert_eq!(reg.unsubscribe(100), Ok(10));
    assert_eq!(reg.subscription_for(7), None);
    assert_eq!(reg.target_of(100), None);
    assert_eq!(reg.unsubscribe(100), Err(SubscriptionError::NotFound(100)));
}

#[test]
fn taken_identifier_changes_nothing() {
    let mut reg: EventSubscriptionManager<u32, &str> = EventSubscriptionManager::new();
    reg.subscribe_with_id(7, handle(1), target("win-a"), 10, 100);
    let clash = reg.subscribe_with_id(8, handle(3), target("win-c"), 12, 100);
    assert!(matches!(clash, SubscribeOutcome::IdTaken));
    assert_eq!(reg.subscription_for(8), None);
    assert_eq!(reg.target_of(100), Some(&target("win-a")));
}

#[test]
fn pump_forwards_and_flags_turn_diffs() {
    let mut reg: EventSubscriptionManager<u32, &str> = EventSubscriptionManager::new();
    reg.subscribe_with_id(7, handle(1), target("win-a"), 10, 100);
    assert_eq!(
        reg.pump_step(100, PumpEvent::Event { turn_diff: true }),
        PumpAction::Deliver { target: target("win-a"), capture_snapshot: true }
    );
    assert_eq!(reg.pump_step(100, PumpEvent::StreamEnded), PumpAction::Stop);
    assert_eq!(reg.subscription_for(7), None);
    assert_eq!(reg.target_of(100), None);
    // the signal stays until someone unsubscribes
    assert!(reg.has_subscription(100));
    // a later subscribe for the conversation creates a fresh subscription
    let again = reg.subscribe_with_id(7, handle(1), target("win-a"), 11, 300);
    assert!(matches!(again, SubscribeOutcome::Created { id: 300, replaced: None }));
}

#[test]
fn random_identifiers_are_distinct() {
    let mut reg: EventSubscriptionManager<u32, &str> = EventSubscriptionManager::new();
    let a = match reg.subscribe(1, handle(1), target("win-a"), 10) {
        SubscribeOutcome::Created { id, replaced: None } => id,
        other => panic!("unexpected {:?}", other),
    };
    let b = match reg.subscribe(2, handle(2), target("win-b"), 11) {
        SubscribeOutcome::Created { id, replaced: None } => id,
        other => panic!("unexpected {:?}", other),
    };
    assert_ne!(a, b);
    assert!(matches!(reg.subscribe(1, handle(1), target("win-a"), 12), SubscribeOutcome::Existing(x) if x == a));
    // version 4 identifiers carry their version nibble
    assert_eq!((a >> 76) & 0xF, 4);
}
