use prismarine::model::ManagedPort;
use prismarine::ports::{close_managed_port, protocols_for, put_managed_port, set_managed_port_active};

fn entry(slot: u8, port: u16) -> ManagedPort {
    ManagedPort { slot, port, protocol: "TCP".to_string(), name: format!("p{}", port), active: true }
}

#[test]
fn put_replaces_slot() {
    let mut v = vec![entry(1, 100), entry(2, 200)];
    put_managed_port(&mut v, entry(1, 111));
    let got: Vec<(u8, u16)> = v.iter().map(|p| (p.slot, p.port)).collect();
    assert_eq!(got, vec![(2, 200), (1, 111)]);
    put_managed_port(&mut v, entry(3, 300));
    assert_eq!(v.len(), 3);
}

#[test]
fn activate_and_close() {
    let mut v = vec![entry(1, 100), entry(2, 200)];
    let e = set_managed_port_active(&mut v, 2, false).unwrap();
    assert_eq!((e.slot, e.port, e.active), (2, 200, false));
    assert!(!v[1].active);
    assert!(set_managed_port_active(&mut v, 9, false).is_none());
    let closed = close_managed_port(&mut v, 1).unwrap();
    assert_eq!(closed.port, 100);
    assert_eq!(v.len(), 1);
    assert!(close_managed_port(&mut v, 1).is_none());
}

#[test]
fn protocol_expansion() {
    assert_eq!(protocols_for("BOTH"), vec!["TCP", "UDP"]);
    assert_eq!(protocols_for("UDP"), vec!["UDP"]);
}
