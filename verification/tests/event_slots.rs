use mediasoup::event_slot::{MultiSlot, OnceSlot};

#[test]
fn multi_slot_fires_in_registration_order_and_keeps_subscribers() {
    let mut slot = MultiSlot::new();
    let a = slot.add();
    let b = slot.add();
    let c = slot.add();
    assert_eq!(slot.fire(), vec![a, b, c]);
    // Multi-fire slots never clear themselves.
    assert_eq!(slot.fire(), vec![a, b, c]);
    assert!(slot.remove(b));
    assert_eq!(slot.fire(), vec![a, c]);
    // Removing twice is harmless.
    assert!(!slot.remove(b));
    assert_eq!(slot.fire(), vec![a, c]);
}

#[test]
fn once_slot_delivers_exactly_once_then_replays_late_subscribers() {
    let mut slot = OnceSlot::new();
    let (a, replay_a) = slot.add();
    let (b, replay_b) = slot.add();
    assert!(!replay_a && !replay_b);

    // First fire: everyone, in registration order; then the slot is spent.
    assert_eq!(slot.fire(), vec![a, b]);
    assert_eq!(slot.fire(), Vec::<u64>::new());

    // A late subscriber is replayed immediately, exactly once.
    let (c, replay_c) = slot.add();
    assert!(replay_c);
    assert_ne!(c, a);
    assert_ne!(c, b);
    assert_eq!(slot.fire(), Vec::<u64>::new());
}

#[test]
fn once_slot_deregistration_spares_the_removed_subscriber() {
    let mut slot = OnceSlot::new();
    let (a, _) = slot.add();
    let (b, _) = slot.add();
    assert!(slot.remove(a));
    // Removing twice is harmless.
    assert!(!slot.remove(a));
    assert_eq!(slot.fire(), vec![b]);
}
