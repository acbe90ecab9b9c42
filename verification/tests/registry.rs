use backend::scheduler::registry::{ActiveTurn, ActiveTurnRegistry};

#[test]
fn a_registered_turn_can_be_cancelled_and_removed_once() {
    let mut registry = ActiveTurnRegistry::new();
    let first = registry.register("thread-1", "turn-1");
    let other = registry.register("thread-1", "turn-2");
    let elsewhere = registry.register("thread-2", "turn-1");
    assert_ne!(first.signal, other.signal);
    assert_eq!(registry.cancel("thread-1", "turn-1"), Some(first.signal));
    assert_eq!(registry.cancel("thread-1", "turn-9"), None);
    assert_eq!(registry.cancel_thread("thread-1"), vec![first.signal, other.signal]);
    assert_eq!(registry.cancel_thread("thread-3"), Vec::<u64>::new());
    assert!(registry.remove(&first));
    assert!(!registry.remove(&first));
    assert_eq!(registry.cancel("thread-1", "turn-1"), None);
    assert_eq!(registry.cancel("thread-2", "turn-1"), Some(elsewhere.signal));
}

#[test]
fn a_stale_handle_does_not_remove_a_newer_registration() {
    let mut registry = ActiveTurnRegistry::new();
    let stale = registry.register("thread-1", "turn-1");
    let fresh = registry.register("thread-1", "turn-1");
    assert_ne!(stale.signal, fresh.signal);
    assert_eq!(registry.cancel_thread("thread-1"), vec![fresh.signal]);
    assert!(!registry.remove(&stale));
    assert_eq!(registry.cancel("thread-1", "turn-1"), Some(fresh.signal));
    let forged = ActiveTurn { thread_id: "thread-1".to_string(), turn_id: "turn-1".to_string(), signal: 99 };
    assert!(!registry.remove(&forged));
    assert!(registry.remove(&fresh));
    assert_eq!(registry.cancel_thread("thread-1"), Vec::<u64>::new());
}
