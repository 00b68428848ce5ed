use slow::datagram::{SlowDatagram, SlowDatagramHeader};
use slow::junction::JunctionId;
use slow::package::SlowPackage;
use slow::package_tracker::SlowPackageTracker;
use slow::tracker::UpdateResult;

#[test]
fn test_datagram_bin_payload() {
    let recipient = JunctionId::new("recipient");
    let sender = JunctionId::new("sender");
    let mut datagram =
        SlowDatagram::new_bin_payload(recipient.clone(), sender.clone(), &[1, 2, 3]).unwrap();
    assert_eq!(datagram.get_recipient_id(), &recipient);
    assert_eq!(datagram.get_sender_id(), &sender);
    assert_eq!(datagram.get_hop_count(), 0);
    assert_eq!(datagram.get_package_id(), 0);
    assert_eq!(datagram.header.payload_type, 0);
    assert_eq!(datagram.header.payload_size, 3);
    assert_eq!(datagram.payload, vec![1, 2, 3]);
    assert_eq!(datagram.increment_hops(), 1);
    assert_eq!(datagram.increment_hops(), 2);
    assert_eq!(datagram.get_hop_count(), 2);
    datagram.set_package_id(77);
    assert_eq!(datagram.get_package_id(), 77);
    assert!(datagram.get_json_payload().is_none());
}

#[test]
fn test_datagram_json_payload() {
    let mut map = serde_json::Map::new();
    map.insert("a".to_string(), serde_json::Value::from(1));
    let value = serde_json::Value::Object(map);
    let datagram =
        SlowDatagram::new_json_payload(JunctionId::new("r"), JunctionId::new("s"), &value)
            .unwrap();
    assert_eq!(datagram.header.payload_type, 1);
    assert_eq!(datagram.payload, b"{\"a\":1}".to_vec());
    assert_eq!(datagram.header.payload_size, 7);
    assert_eq!(datagram.get_json_payload(), Some(value));
}

#[test]
fn test_datagram_from_parts_checks_size() {
    let header = SlowDatagramHeader {
        recipient_id: JunctionId::new("r"),
        sender_id: JunctionId::new("s"),
        hop_count: 4,
        payload_type: 0,
        package_id: 9,
        payload_size: 2,
    };
    let datagram = SlowDatagram::from_parts(header, &[5, 6]).unwrap();
    assert_eq!(datagram.get_hop_count(), 4);
    assert_eq!(datagram.get_package_id(), 9);
    assert_eq!(datagram.payload, vec![5, 6]);
    let header = SlowDatagramHeader {
        recipient_id: JunctionId::new("r"),
        sender_id: JunctionId::new("s"),
        hop_count: 4,
        payload_type: 0,
        package_id: 9,
        payload_size: 2,
    };
    assert!(SlowDatagram::from_parts(header, &[5, 6, 7]).is_none());
}

#[test]
fn test_package_tracker() {
    let mut tracker = SlowPackageTracker::new();
    assert_eq!(tracker.highest_package_id(), 0);
    assert_eq!(tracker.package_bitfield(), 0);
    let mut package = SlowPackage::new_ping(JunctionId::new("r"), JunctionId::new("s"));
    assert_eq!(tracker.update(&package), UpdateResult::Duplicate);
    package.set_package_id(6);
    assert_eq!(tracker.update(&package), UpdateResult::Success);
    assert_eq!(tracker.update(&package), UpdateResult::Duplicate);
    package.set_package_id(4);
    assert_eq!(tracker.update(&package), UpdateResult::Success);
    assert_eq!(tracker.highest_package_id(), 6);
    assert_eq!(tracker.package_bitfield(), 0b101);
    package.set_package_id(6 + 64);
    assert_eq!(tracker.update(&package), UpdateResult::Success);
    package.set_package_id(4);
    assert_eq!(tracker.update(&package), UpdateResult::Old);
    let fresh = SlowPackageTracker::default();
    assert_eq!(fresh.highest_package_id(), 0);
}
