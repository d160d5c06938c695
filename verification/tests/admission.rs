use connect_proxy::admission::AdmissionGate;

#[test]
fn admits_up_to_capacity_and_no_further() {
    let capacity: usize = 2;
    let mut gate = AdmissionGate::new(capacity);
    assert_eq!(gate.capacity(), capacity);
    assert_eq!(gate.active(), 0);

    // Three sessions arrive at once: only two may be admitted.
    assert!(gate.try_acquire());
    assert!(gate.try_acquire());
    assert!(!gate.try_acquire());
    assert_eq!(gate.active(), capacity);

    // The third proceeds only after one of the first two fully releases.
    gate.release();
    assert_eq!(gate.active(), 1);
    assert!(gate.try_acquire());
    assert!(!gate.try_acquire());
}

#[test]
fn refused_acquire_changes_nothing() {
    let mut gate = AdmissionGate::new(1);
    assert!(gate.try_acquire());
    assert!(!gate.try_acquire());
    assert!(!gate.try_acquire());
    assert_eq!(gate.active(), 1);
    assert_eq!(gate.capacity(), 1);
}

#[test]
fn zero_capacity_admits_nobody() {
    let mut gate = AdmissionGate::new(0);
    assert!(!gate.try_acquire());
    assert_eq!(gate.active(), 0);
}

#[test]
fn sixteen_slot_gate_serves_waves_of_sessions() {
    // The reference configuration: sixteen concurrent sessions.
    let mut gate = AdmissionGate::new(16);
    for _ in 0..16 {
        assert!(gate.try_acquire());
    }
    assert!(!gate.try_acquire());
    for _ in 0..16 {
        gate.release();
    }
    assert_eq!(gate.active(), 0);
    assert!(gate.try_acquire());
}
