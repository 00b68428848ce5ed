use slow::addr::PeerAddr;
use slow::junction::JunctionId;
use slow::package::{PackageType, SlowPackage};
use slow::tcp::tcp_frame::{FrameError, SlowTcpFrame};
use slow::tcp::tcp_junction::{broadcast_outcome, BroadcastError, TcpJunctionState, TcpReaction};
use slow::tcp::tcp_link::{
    client_accepts, hello_message, hello_response, max_frame_size, server_reply, LinkIdSource,
};
use slow::tcp::tcp_router::{SlowTcpLinkStats, SlowTcpRouteStats, SlowTcpRouter};
use slow::tracker::UpdateResult;

#[test]
fn test_tcp_frame_size_limit() {
    assert_eq!(SlowTcpFrame::max_frame_size(), 1024 * 1024);
    assert_eq!(max_frame_size(), 1024 * 1024);
    let full = vec![0xABu8; 1024 * 1024];
    let frame = SlowTcpFrame::encode(&full).expect("1 MiB fits a frame");
    assert_eq!(frame.len(), full.len() + 8);
    assert_eq!(&frame[..4], &[0x00, 0x10, 0x00, 0x00]);
    assert_eq!(&frame[frame.len() - 4..], &[0x00, 0x10, 0x00, 0x00]);
    assert_eq!(SlowTcpFrame::decode(&frame, full.len()), Ok(full));
    let too_large = vec![0u8; 1024 * 1024 + 1];
    assert_eq!(
        SlowTcpFrame::encode(&too_large),
        Err(FrameError::InvalidInput)
    );
}

#[test]
fn test_tcp_frame_send() {
    let full = vec![0xABu8; 1024 * 1024];
    let mut stream = vec![7u8];
    assert_eq!(SlowTcpFrame::send(&full, &mut stream), Ok(1024 * 1024));
    assert_eq!(stream.len(), 1 + 4 + full.len() + 4);
    assert_eq!(&stream[..5], &[7, 0x00, 0x10, 0x00, 0x00]);
    assert_eq!(&stream[5..5 + full.len()], &full[..]);
    assert_eq!(&stream[stream.len() - 4..], &[0x00, 0x10, 0x00, 0x00]);

    let too_large = vec![0u8; 1024 * 1024 + 1];
    let mut stream = vec![7u8];
    assert_eq!(
        SlowTcpFrame::send(&too_large, &mut stream),
        Err(FrameError::InvalidInput)
    );
    assert_eq!(stream, vec![7u8]);

    let mut stream = Vec::new();
    assert_eq!(SlowTcpFrame::send(b"ab", &mut stream), Ok(2));
    assert_eq!(SlowTcpFrame::send(b"", &mut stream), Ok(0));
    assert_eq!(
        stream,
        vec![0, 0, 0, 2, b'a', b'b', 0, 0, 0, 2, 0, 0, 0, 0, 0, 0, 0, 0]
    );
}

#[test]
fn test_tcp_frame_bytes() {
    let frame = SlowTcpFrame::encode(b"abc").unwrap();
    assert_eq!(frame, vec![0, 0, 0, 3, b'a', b'b', b'c', 0, 0, 0, 3]);
    assert_eq!(SlowTcpFrame::encode(&[]).unwrap(), vec![0; 8]);
    assert_eq!(SlowTcpFrame::decode(&frame, 3), Ok(b"abc".to_vec()));
    assert_eq!(SlowTcpFrame::decode(&frame, 64), Ok(b"abc".to_vec()));
    // the receiver's buffer is too small
    assert_eq!(
        SlowTcpFrame::decode(&frame, 2),
        Err(FrameError::InvalidInput)
    );
    // the suffix differs from the prefix
    let mut corrupt = frame.clone();
    corrupt[10] = 4;
    assert_eq!(
        SlowTcpFrame::decode(&corrupt, 64),
        Err(FrameError::InvalidData)
    );
    // the bytes end early
    for k in 0..frame.len() {
        assert_eq!(
            SlowTcpFrame::decode(&frame[..k], 64),
            Err(FrameError::UnexpectedEof)
        );
    }
}

#[test]
fn test_tcp_frame_receive_steps() {
    assert_eq!(SlowTcpFrame::expect_data([0, 0, 1, 2], 4096), Ok(258));
    assert_eq!(SlowTcpFrame::expect_data([0, 0, 1, 2], 258), Ok(258));
    assert_eq!(
        SlowTcpFrame::expect_data([0, 0, 1, 2], 257),
        Err(FrameError::InvalidInput)
    );
    assert_eq!(SlowTcpFrame::expect_data([0, 0, 0, 0], 0), Ok(0));
    assert_eq!(SlowTcpFrame::check_suffix(258, [0, 0, 1, 2]), Ok(258));
    assert_eq!(
        SlowTcpFrame::check_suffix(258, [0, 0, 1, 3]),
        Err(FrameError::InvalidData)
    );
    assert_eq!(
        SlowTcpFrame::check_suffix(258, [2, 1, 0, 0]),
        Err(FrameError::InvalidData)
    );
}

#[test]
fn test_tcp_handshake() {
    assert_eq!(hello_message(), b"SLOW_HELLO".to_vec());
    assert_eq!(hello_response(), b"SLOW_WELCOME".to_vec());
    assert_eq!(server_reply(Some(b"SLOW_HELLO")), Some(b"SLOW_WELCOME".to_vec()));
    assert_eq!(server_reply(Some(b"SLOW_HELLO!")), None);
    assert_eq!(server_reply(Some(b"SLOW_WELCOME")), None);
    assert_eq!(server_reply(Some(b"")), None);
    assert_eq!(server_reply(None), None);
    assert!(client_accepts(Some(b"SLOW_WELCOME")));
    assert!(!client_accepts(Some(b"SLOW_HELLO")));
    assert!(!client_accepts(Some(b"SLOW_WELCOM")));
    assert!(!client_accepts(None));
}

#[test]
fn test_link_ids_are_unique() {
    let mut source = LinkIdSource::new();
    assert_eq!(source.next(), Some(0));
    assert_eq!(source.next(), Some(1));
    assert_eq!(source.next(), Some(2));
}

#[test]
fn test_tcp_router_picks_busiest_link() {
    let sender = JunctionId::new("sender");
    let mut router = SlowTcpRouter::new();
    assert_eq!(router.get_best_link(&sender), None);
    let mut package = SlowPackage::new_ping(JunctionId::new("r"), sender.clone());
    package.set_package_id(1);
    assert_eq!(router.update(&package, 7), UpdateResult::Success);
    assert_eq!(router.update(&package, 8), UpdateResult::Duplicate);
    assert_eq!(router.get_best_link(&sender), Some(7));
    package.set_package_id(2);
    assert_eq!(router.update(&package, 8), UpdateResult::Success);
    // one each: the link recorded first
    assert_eq!(router.get_best_link(&sender), Some(7));
    package.set_package_id(3);
    assert_eq!(router.update(&package, 8), UpdateResult::Success);
    assert_eq!(router.get_best_link(&sender), Some(8));
    package.set_package_id(200);
    assert_eq!(router.update(&package, 7), UpdateResult::Success);
    package.set_package_id(3);
    assert_eq!(router.update(&package, 7), UpdateResult::Old);
    assert_eq!(router.get_best_link(&sender), Some(7));
    assert_eq!(router.get_best_link(&JunctionId::new("other")), None);
}

#[test]
fn test_tcp_route_stats() {
    let stats = SlowTcpLinkStats::new();
    assert_eq!(stats.valid_packet_count, 0);
    assert_eq!(stats.invalid_packet_count, 0);
    let mut route = SlowTcpRouteStats::new();
    assert_eq!(route.get_best_link(), None);
    let mut package = SlowPackage::new_ping(JunctionId::new("r"), JunctionId::new("s"));
    // id 0 is never new to fresh statistics: the link is recorded all the same
    assert_eq!(route.update(&package, 4), UpdateResult::Duplicate);
    assert_eq!(route.get_best_link(), Some(4));
    package.set_package_id(5);
    assert_eq!(route.update(&package, 9), UpdateResult::Success);
    assert_eq!(route.get_best_link(), Some(9));
}

#[test]
fn test_broadcast_outcome() {
    assert_eq!(broadcast_outcome(&[]), Err(BroadcastError::NothingSent));
    assert_eq!(broadcast_outcome(&[Some(14), Some(14)]), Ok(14));
    assert_eq!(broadcast_outcome(&[None, Some(14), None]), Ok(14));
    assert_eq!(broadcast_outcome(&[Some(0), Some(9)]), Ok(9));
    assert_eq!(
        broadcast_outcome(&[None, None]),
        Err(BroadcastError::LinkFailed(1))
    );
    assert_eq!(
        broadcast_outcome(&[None, Some(0)]),
        Err(BroadcastError::LinkFailed(0))
    );
    assert_eq!(
        broadcast_outcome(&[Some(0)]),
        Err(BroadcastError::NothingSent)
    );
}

#[test]
fn test_tcp_junction() {
    let addr1 = PeerAddr::v4(127, 0, 0, 1, 9001);
    let addr2 = PeerAddr::v4(127, 0, 0, 1, 9002);
    let junction_id1 = JunctionId::new("junction1");
    let junction_id2 = JunctionId::new("junction2");
    let mut junction1 = TcpJunctionState::new(addr1, junction_id1.clone());
    let mut junction2 = TcpJunctionState::new(addr2, junction_id2.clone());
    assert_eq!(junction1.local_addr(), addr1);
    assert_eq!(junction2.junction_id(), &junction_id2);

    // junction2 connects to junction1: each side holds one link
    junction1.add_link(0);
    junction2.add_link(1);
    assert_eq!(junction1.link_count(), 1);
    assert_eq!(junction2.link_count(), 1);

    let test_message = b"Hello from junction2 to junction1";
    let test_package =
        SlowPackage::new_bin_payload(junction_id1.clone(), junction_id2.clone(), test_message);

    // Send the package from junction2 to junction1
    let data = junction2.prepare_package(&test_package);
    let links = junction2.broadcast_links(None);
    assert_eq!(links, vec![1]);
    let bytes_sent = junction2
        .finish_send(&[Some(data.len())])
        .expect("Failed to send package from junction2 to junction1");
    assert_eq!(bytes_sent, test_package.pack(0).len());
    assert_eq!(junction2.sent_package_count(), 1);

    assert!(matches!(junction1.process(&data, 0), TcpReaction::Delivered));
    assert_eq!(junction1.received_package_count(), 1);
    assert_eq!(junction2.received_package_count(), 0);
    assert_eq!(junction1.waiting_package_count(), 1);
    let received = junction1.receive_package().unwrap();
    assert_eq!(received.package_id(), 1);
    assert_eq!(received.payload, test_message.to_vec());
    assert_eq!(received.package_type(), Ok(PackageType::Bin));
    assert!(junction1.receive_package().is_none());

    // junction1 closes: junction2 loses its link
    junction2.remove_link(1);
    assert_eq!(junction2.link_count(), 0);
    assert_eq!(
        junction2.finish_send(&[]),
        Err(BroadcastError::NotConnected)
    );
    assert_eq!(junction2.sent_package_count(), 1);
}

#[test]
fn test_tcp_junction_relay() {
    let mut relay = TcpJunctionState::new(PeerAddr::v4(127, 0, 0, 1, 1), JunctionId::new("relay"));
    relay.add_link(10);
    relay.add_link(11);
    relay.add_link(12);
    relay.add_link(11);
    assert_eq!(relay.link_count(), 3);

    // unreadable bytes are rejected
    assert!(matches!(relay.process(&[1, 2, 3], 10), TcpReaction::Nothing));
    assert_eq!(relay.rejected_package_count(), 1);

    // nothing is known of "far": the package goes on every link but its own
    let package =
        SlowPackage::new_bin_payload(JunctionId::new("far"), JunctionId::new("near"), &[7]);
    let data = package.pack(1);
    match relay.process(&data, 11) {
        TcpReaction::Broadcast { data: sent, links } => {
            assert_eq!(links, vec![10, 12]);
            let relayed = SlowPackage::unpack(&sent).unwrap();
            assert_eq!(relayed.hop_count(), 1);
            assert_eq!(relayed.package_id(), 1);
            assert_eq!(relayed.payload, vec![7]);
        }
        _ => panic!("a new package for another junction is sent on"),
    }
    assert_eq!(relay.received_package_count(), 1);

    // the same package on another link is rejected
    assert!(matches!(relay.process(&data, 12), TcpReaction::Nothing));
    assert_eq!(relay.rejected_package_count(), 2);
    assert_eq!(relay.received_package_count(), 1);

    // "near" was heard on link 11: a package for it takes that link
    let back = SlowPackage::new_bin_payload(JunctionId::new("near"), JunctionId::new("far"), &[8]);
    match relay.process(&back.pack(1), 10) {
        TcpReaction::Forward {
            data: sent,
            link,
            fallback,
        } => {
            assert_eq!(link, 11);
            assert_eq!(fallback, vec![11, 12]);
            assert_eq!(SlowPackage::unpack(&sent).unwrap().hop_count(), 1);
        }
        _ => panic!("a package for a junction heard of is forwarded"),
    }
    relay.note_sent();
    assert_eq!(relay.sent_package_count(), 1);

    // once the link is gone the package is broadcast
    relay.remove_link(11);
    match relay.process(&back.pack(2), 10) {
        TcpReaction::Broadcast { links, .. } => assert_eq!(links, vec![12]),
        _ => panic!("without the best link the package is broadcast"),
    }

    // a package out of hops is counted and dropped
    let mut tired =
        SlowPackage::new_bin_payload(JunctionId::new("near"), JunctionId::new("far"), &[8]);
    tired.header.hop_count = 127;
    assert!(matches!(
        relay.process(&tired.pack(3), 10),
        TcpReaction::Nothing
    ));
    assert_eq!(relay.received_package_count(), 4);
}

#[test]
fn test_tcp_junction_registry() {
    let mut junction = TcpJunctionState::new(PeerAddr::v4(127, 0, 0, 1, 1), JunctionId::new("j"));
    let a = PeerAddr::v4(10, 0, 0, 1, 1);
    let b = PeerAddr::v4(10, 0, 0, 2, 1);
    assert_eq!(junction.get_junction_addr(&JunctionId::new("x")), None);
    junction.register_junction(JunctionId::new("x"), a);
    junction.register_junction(JunctionId::new("y"), b);
    assert_eq!(junction.get_junction_addr(&JunctionId::new("x")), Some(a));
    assert_eq!(junction.get_junction_addr(&JunctionId::new("y")), Some(b));
    junction.register_junction(JunctionId::new("x"), b);
    assert_eq!(junction.get_junction_addr(&JunctionId::new("x")), Some(b));
    assert_eq!(junction.get_junction_addr(&JunctionId::new("z")), None);
}

#[test]
fn test_tcp_junction_fan_in() {
    let me = JunctionId::new("me");
    let mut junction = TcpJunctionState::new(PeerAddr::v4(127, 0, 0, 1, 1), me.clone());
    let package = SlowPackage::new_bin_payload(me.clone(), JunctionId::new("origin"), &[1, 2]);
    let data = package.pack(5);
    for link in [3u64, 4, 5] {
        junction.add_link(link);
        let _ = junction.process(&data, link);
    }
    assert_eq!(junction.waiting_package_count(), 1);
    assert_eq!(junction.received_package_count(), 1);
    assert_eq!(junction.rejected_package_count(), 2);
}
