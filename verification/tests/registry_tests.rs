use ws_echo::registry::ConnectionRegistry;

#[test]
fn allocated_ids_are_strictly_increasing() {
    let mut reg = ConnectionRegistry::new();
    let a = reg.allocate_id();
    let b = reg.allocate_id();
    let c = reg.allocate_id();
    assert_eq!(a, 1);
    assert_eq!(b, 2);
    assert_eq!(c, 3);
}

#[test]
fn insert_then_read_sees_a_fresh_tracker() {
    let mut reg = ConnectionRegistry::new();
    let id = reg.allocate_id();
    reg.insert(id);
    let t = reg.read(id).expect("entry was just created");
    assert_eq!(t.messages_received, 0);
    assert_eq!(t.total_missed, 0);
}

#[test]
fn update_steps_the_tracker_in_place() {
    let mut reg = ConnectionRegistry::new();
    let id = reg.allocate_id();
    reg.insert(id);
    assert!(reg.update(id, 1).is_none());
    assert!(reg.update(id, 5).is_none());
    let t = reg.read(id).expect("entry exists");
    assert_eq!(t.messages_received, 2);
    assert_eq!(t.total_missed, 3);
    assert_eq!(t.last_sequence, 5);
}

#[test]
fn update_on_absent_id_is_a_noop() {
    let mut reg = ConnectionRegistry::new();
    assert!(reg.update(42, 1).is_none());
    assert!(reg.read(42).is_none());
}

#[test]
fn remove_is_idempotent() {
    let mut reg = ConnectionRegistry::new();
    let id = reg.allocate_id();
    reg.insert(id);
    reg.update(id, 9);
    let first = reg.remove(id);
    assert!(first.is_some());
    assert_eq!(first.unwrap().last_sequence, 9);
    let second = reg.remove(id);
    assert!(second.is_none());
}

#[test]
fn read_after_remove_finds_nothing() {
    let mut reg = ConnectionRegistry::new();
    let id = reg.allocate_id();
    reg.insert(id);
    reg.remove(id);
    assert!(reg.read(id).is_none());
}

#[test]
fn stats_snapshot_fires_exactly_at_every_hundredth_message() {
    let mut reg = ConnectionRegistry::new();
    let id = reg.allocate_id();
    reg.insert(id);
    let mut snapshots = Vec::new();
    for seq in 1..=150u64 {
        if let Some(s) = reg.update(id, seq) {
            snapshots.push((seq, s));
        }
    }
    assert_eq!(snapshots.len(), 1);
    assert_eq!(snapshots[0].0, 100);
    assert!(snapshots[0].1.contains("Total Messages Received: 100"));
}

#[test]
fn registries_track_connections_independently() {
    let mut reg = ConnectionRegistry::new();
    let a = reg.allocate_id();
    let b = reg.allocate_id();
    reg.insert(a);
    reg.insert(b);
    reg.update(a, 1);
    reg.update(a, 4);
    reg.update(b, 1);
    assert_eq!(reg.read(a).unwrap().total_missed, 2);
    assert_eq!(reg.read(b).unwrap().total_missed, 0);
}
