use bar_daemon::listener::{plan_broadcast, snapshot_payload, ClientRegistry};

#[test]
fn insert_contains_and_len() {
    let mut reg = ClientRegistry::new();
    assert!(reg.is_empty());
    reg.insert(7);
    reg.insert(9);
    reg.insert(7);
    assert_eq!(reg.len(), 2);
    assert!(reg.contains(7));
    assert!(reg.contains(9));
    assert!(!reg.contains(8));
}

#[test]
fn register_draws_fresh_ids() {
    let mut reg = ClientRegistry::new();
    let a = reg.register().expect("fresh id");
    let b = reg.register().expect("fresh id");
    assert_ne!(a, b);
    assert_eq!(reg.len(), 2);
}

// A forcibly closed listener is evicted on the next cycle without touching
// the remaining listeners: three registered, one failed, two stay.
#[test]
fn failed_listener_is_evicted_alone() {
    let mut reg = ClientRegistry::new();
    reg.insert(1);
    reg.insert(2);
    reg.insert(3);
    reg.remove_ids(&vec![2]);
    assert_eq!(reg.len(), 2);
    assert!(reg.contains(1));
    assert!(!reg.contains(2));
    assert!(reg.contains(3));
    assert_eq!(reg.ids(), vec![1, 3], "survivors keep their order");
}

#[test]
fn remove_ids_tolerates_unknown_ids() {
    let mut reg = ClientRegistry::new();
    reg.insert(5);
    reg.remove_ids(&vec![6, 7]);
    assert_eq!(reg.ids(), vec![5]);
}

// Two listeners registered for the same cycle receive byte-for-byte the
// same snapshot payload.
#[test]
fn broadcast_plan_carries_one_payload() {
    let mut reg = ClientRegistry::new();
    reg.insert(10);
    reg.insert(11);
    let tuples = vec![
        (String::from("volume"), vec![(String::from("percent"), String::from("42"))]),
    ];
    let payload = snapshot_payload(&tuples);
    assert_eq!(payload, "{\"volume\":{\"percent\":\"42\"}}\n");
    let plan = plan_broadcast(&reg, payload.as_str());
    assert_eq!(plan.len(), 2);
    assert_eq!(plan[0].0, 10);
    assert_eq!(plan[1].0, 11);
    assert_eq!(plan[0].1, plan[1].1);
    assert_eq!(plan[0].1, payload);
}

// The poller's gate: with nobody registered a cycle asks for nothing.
#[test]
fn empty_registry_gates_polling() {
    let reg = ClientRegistry::new();
    assert!(reg.is_empty());
    let plan = plan_broadcast(&reg, "{}\n");
    assert!(plan.is_empty());
}
