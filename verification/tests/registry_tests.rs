use miniserve::registry::Registry;

#[test]
fn open_n_close_m_leaves_n_minus_m_entries() {
    let mut reg = Registry::new();
    for id in 0..5u64 {
        reg.insert(id);
    }
    assert_eq!(reg.len(), 5);
    reg.remove(1);
    reg.remove(3);
    assert_eq!(reg.len(), 3);
    assert!(reg.contains(0));
    assert!(!reg.contains(1));
    assert!(reg.contains(2));
    assert!(!reg.contains(3));
    assert!(reg.contains(4));
}

#[test]
fn new_registry_is_empty() {
    let reg = Registry::new();
    assert_eq!(reg.len(), 0);
    assert!(!reg.contains(7));
}

#[test]
fn remove_takes_out_every_matching_entry() {
    let mut reg = Registry::new();
    reg.insert(9);
    reg.insert(9);
    reg.insert(4);
    reg.remove(9);
    assert_eq!(reg.len(), 1);
    assert!(reg.contains(4));
    assert!(!reg.contains(9));
}

#[test]
fn remove_of_absent_identity_changes_nothing() {
    let mut reg = Registry::new();
    reg.insert(1);
    reg.insert(2);
    reg.remove(3);
    assert_eq!(reg.snapshot(), vec![1, 2]);
}

#[test]
fn snapshot_keeps_insertion_order() {
    let mut reg = Registry::new();
    reg.insert(10);
    reg.insert(20);
    reg.insert(30);
    reg.remove(20);
    assert_eq!(reg.snapshot(), vec![10, 30]);
}
