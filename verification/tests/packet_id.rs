use shiguredo_mqtt::state::packet_id::PacketIdManager;

#[test]
fn release_zero_is_noop() {
    let mut manager = PacketIdManager::new();
    let id = manager.allocate().expect("識別子を割り当てられること");
    manager.release(0);
    assert!(manager.in_use.contains(&id));
}

#[test]
fn allocate_up_to_max() {
    let mut manager = PacketIdManager::new();
    manager.next_id = 65535;
    assert_eq!(manager.allocate(), Some(65535));
    assert_eq!(manager.allocate(), None);
}

#[test]
fn is_available_detects_exhaustion() {
    let mut manager = PacketIdManager::new();
    assert!(manager.is_available());
    manager.next_id = 65536;
    manager.free_list.clear();
    assert!(!manager.is_available());
}
