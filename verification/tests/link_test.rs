use slow::addr::PeerAddr;
use slow::junction::JunctionId;
use slow::link::{SlowLink, UnpackResult};
use slow::link_packet::SlowLinkPacket;
use slow::package::SlowPackage;
use slow::udp::udp_link::SlowUdpLink;

#[test]
fn test_slow_link_basic() {
    // Create a test socket address
    let addr = PeerAddr::v4(127, 0, 0, 1, 3000);

    // Create a new SlowLink instance
    let mut link = SlowLink::new(addr);

    // Verify the initial state
    assert_eq!(link.remote_address(), addr);
    assert_eq!(link.packed_count(), 0);

    // Create and pack a test package
    let sender_id = JunctionId::new("sender");
    let recipient_id = JunctionId::new("recipient");
    let package = SlowPackage::new_ping(recipient_id, sender_id);

    // Pack the package and verify success
    let packed_data = link.pack(&package);
    assert!(packed_data.is_some());
    assert_eq!(link.packed_count(), 1);

    // Unpack the data and verify successful unpacking
    let packed_data = packed_data.unwrap();
    let unpack_result = link.unpack(&packed_data);

    // Verify we got a Payload result with a valid index
    match unpack_result {
        UnpackResult::Payload(start_idx) => {
            // Extract and verify the package data
            let package_data = &packed_data[start_idx..];
            assert!(!package_data.is_empty());
            assert_eq!(package_data, &package.pack(0)[..]);
        }
        _ => panic!("Expected UnpackResult::Payload, got {:?}", unpack_result),
    }
}

#[test]
fn test_slow_udp_link() {
    let addr = PeerAddr::v4(127, 0, 0, 1, 3000);

    // Create a new link instance
    let mut link = SlowUdpLink::new(addr);

    // Verify the initial state
    assert_eq!(link.remote_address(), addr);
    assert_eq!(link.packed_count(), 0);

    // Create and pack a test package
    let sender_id = JunctionId::new("sender");
    let recipient_id = JunctionId::new("recipient");
    let package = SlowPackage::new_ping(recipient_id, sender_id);

    // Pack the package and verify success
    let packed_data = link.pack(&package);
    assert!(packed_data.is_some());
    assert_eq!(link.packed_count(), 1);

    // Unpack the data and verify successful unpacking
    let packed_data = packed_data.unwrap();
    let packet = link.unpack(&packed_data);
    match packet {
        SlowLinkPacket::Payload(payload_packet) => {
            assert_eq!(payload_packet.packet_id, 1);
            assert_eq!(payload_packet.payload, package.pack(0));
        }
        _ => panic!("Unexpected packet type"),
    }
}

#[test]
fn test_link_numbers_and_replays() {
    let mut sender = SlowLink::new(PeerAddr::v4(127, 0, 0, 1, 1));
    let mut receiver = SlowLink::new(PeerAddr::v4(127, 0, 0, 1, 2));
    let package = SlowPackage::new_bin_payload(JunctionId::new("r"), JunctionId::new("s"), &[1]);
    let first = sender.pack(&package).unwrap();
    let second = sender.pack(&package).unwrap();
    let third = sender.pack(&package).unwrap();
    assert_eq!(sender.packed_count(), 3);
    assert_eq!(&first[..9], &[2, 0, 0, 0, 0, 0, 0, 0, 1]);
    assert_eq!(&third[..9], &[2, 0, 0, 0, 0, 0, 0, 0, 3]);
    assert_eq!(receiver.unpack(&third), UnpackResult::Payload(11));
    assert_eq!(receiver.unpack(&first), UnpackResult::Payload(11));
    assert_eq!(receiver.unpack(&first), UnpackResult::Duplicate);
    assert_eq!(receiver.unpack(&third), UnpackResult::Duplicate);
    assert_eq!(receiver.unpack(&second), UnpackResult::Payload(11));
    assert_eq!(receiver.unpack(&[]), UnpackResult::Control);
    assert_eq!(receiver.unpack(&[1]), UnpackResult::Control);
    assert_eq!(receiver.unpack(&[0; 17]), UnpackResult::Control);
    assert_eq!(receiver.unpack(&[9, 9]), UnpackResult::Invalid);
    assert_eq!(receiver.unpack(&[2, 9]), UnpackResult::Invalid);
    // a packet far ahead moves the window; what lies below it is old
    let mut far = third.clone();
    far[8] = 200;
    assert_eq!(receiver.unpack(&far), UnpackResult::Payload(11));
    assert_eq!(receiver.unpack(&second), UnpackResult::Old);
}
