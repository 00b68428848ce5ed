use slow::addr::PeerAddr;
use slow::junction::{Dispatch, JsonPacket, JunctionId, JunctionState, Reaction};
use slow::package::{PackageType, SlowPackage};
use std::collections::VecDeque;

/// Junctions joined by a network that carries every datagram, in the
/// order in which they were sent.
struct Net {
    junctions: Vec<JunctionState>,
    in_flight: VecDeque<(PeerAddr, PeerAddr, Vec<u8>)>,
    carried: usize,
    /// The addresses that no datagram can be sent to.
    down: Vec<PeerAddr>,
}

fn addr_of(port: u16) -> PeerAddr {
    PeerAddr::v4(127, 0, 0, 1, port)
}

fn json_of(key: &str, value: &str) -> serde_json::Value {
    let mut map = serde_json::Map::new();
    map.insert(key.to_string(), serde_json::Value::from(value));
    serde_json::Value::Object(map)
}

impl Net {
    fn new(ports: &[u16]) -> Net {
        let mut junctions = Vec::new();
        for (i, port) in ports.iter().enumerate() {
            let id = format!("{}", i + 1);
            junctions.push(JunctionState::new(addr_of(*port), JunctionId::new(&id)));
        }
        Net {
            junctions,
            in_flight: VecDeque::new(),
            carried: 0,
            down: Vec::new(),
        }
    }

    fn index_of(&self, addr: PeerAddr) -> Option<usize> {
        self.junctions.iter().position(|j| j.get_address() == addr)
    }

    /// Sends a dispatch: to its targets, and where one of them cannot be
    /// reached, to the peers to fall back to.
    fn transmit(&mut self, from: usize, dispatch: Dispatch) {
        let bytes = dispatch.package.pack(dispatch.package.package_id());
        let source = self.junctions[from].get_address();
        let mut failed = false;
        for target in dispatch.targets.iter() {
            if self.down.contains(target) {
                failed = true;
            } else {
                self.in_flight.push_back((source, *target, bytes.clone()));
            }
        }
        if failed {
            for target in dispatch.fallback.iter() {
                if !self.down.contains(target) {
                    self.in_flight.push_back((source, *target, bytes.clone()));
                }
            }
        }
    }

    fn join(&mut self, from: usize, to: usize) {
        let target = self.junctions[to].get_address();
        let hello = self.junctions[from].join(target);
        self.transmit(from, hello);
    }

    fn pump(&mut self, at: usize) {
        while let Some(dispatch) = self.junctions[at].next_outgoing() {
            self.transmit(at, dispatch);
        }
    }

    /// Carries datagrams until none is in flight.
    fn settle(&mut self) {
        for at in 0..self.junctions.len() {
            self.pump(at);
        }
        while let Some((source, target, bytes)) = self.in_flight.pop_front() {
            self.carried += 1;
            assert!(self.carried < 10_000, "the network does not come to rest");
            let at = match self.index_of(target) {
                Some(at) => at,
                None => continue,
            };
            match self.junctions[at].on_datagram_received(&bytes, source) {
                Reaction::Transmit(dispatch) => self.transmit(at, dispatch),
                Reaction::Queued => self.pump(at),
                Reaction::Delivered | Reaction::Nothing => {}
            }
        }
    }
}

#[test]
fn test_junction_line() {
    let mut net = Net::new(&[1110, 2220, 3330, 4440]);
    net.join(0, 1);
    net.join(1, 2);
    net.join(2, 3);
    net.settle();

    let ping = json_of("key", "ping");
    assert!(net.junctions[0].send(&ping, &JunctionId::new("4")));
    net.settle();

    // Check waiting package count before receiving
    assert_eq!(net.junctions[3].get_waiting_package_count(), 1);

    // Check if the package was received by junction4
    let received_package = net.junctions[3].recv().unwrap();
    assert_eq!(received_package.json, ping);
    assert_eq!(received_package.addr, addr_of(3330));
    assert!(net.junctions[3]
        .get_best_route(&JunctionId::new("1"))
        .is_some());

    // Send pong response back to junction1
    let pong = json_of("key", "pong");
    assert!(net.junctions[3].send(&pong, &JunctionId::new("1")));
    net.settle();

    // Check waiting package count before receiving pong
    assert_eq!(net.junctions[0].get_waiting_package_count(), 1);

    // Verify junction1 received the pong
    let pong_package = net.junctions[0].recv().unwrap();
    assert_eq!(pong_package.json, pong);
    assert_eq!(pong_package.addr, addr_of(2220));
}

#[test]
fn test_junction_square() {
    let mut net = Net::new(&[1111, 2221, 3331, 4441]);
    let junction_id1 = JunctionId::new("1");
    let junction_id4 = JunctionId::new("4");

    // Create square topology: junction1 -> (junction2, junction3) -> junction4
    net.join(0, 1);
    net.join(0, 2);
    net.join(1, 3);
    net.join(2, 3);
    net.settle();

    let ping = json_of("key", "ping");
    assert!(net.junctions[0].send(&ping, &junction_id4));
    net.settle();

    assert_eq!(net.junctions[3].get_waiting_package_count(), 1); // Should receive 2 packages but only accept 1
    assert_eq!(net.junctions[3].get_duplicate_package_count(), 1); // Should receive 1 duplicate packages

    let received_package = net.junctions[3].recv().unwrap();
    assert_eq!(received_package.json, ping);
    assert!(received_package.addr == addr_of(2221) || received_package.addr == addr_of(3331));

    let pong = json_of("key", "pong");
    assert!(net.junctions[3].send(&pong, &junction_id1));
    let before = net.carried;
    net.settle();
    // the reply travels the best route only: one datagram to a relay, one on to junction1
    assert_eq!(net.carried - before, 2);

    assert_eq!(net.junctions[0].get_waiting_package_count(), 1); // Should receive from onlye best path

    let pong_package = net.junctions[0].recv().unwrap();
    assert_eq!(pong_package.json, pong);
    assert!(pong_package.addr == addr_of(2221) || pong_package.addr == addr_of(3331));

    // Assert best route to junction "1" from "4" exists
    assert!(net.junctions[3].get_best_route(&junction_id1).is_some());
}

#[test]
fn test_junction_pyramid() {
    let mut net = Net::new(&[1112, 2222, 3332, 4442, 5552]);
    let junction_id1 = JunctionId::new("1");
    let junction_id4 = JunctionId::new("4");

    // Create pyramid topology: junction1 -> (junction2, junction3) -> junction4
    net.join(0, 1);
    net.join(0, 2);
    net.join(1, 3);
    net.join(2, 3);

    // Join all junctions with junction5
    net.join(0, 4);
    net.join(1, 4);
    net.join(2, 4);
    net.join(3, 4);
    net.settle();

    let ping = json_of("key", "ping");
    assert!(net.junctions[0].send(&ping, &junction_id4));
    net.settle();

    assert_eq!(net.junctions[4].get_duplicate_package_count(), 2); // Should have received 2 duplicate packages from junction2 & 3
    assert_eq!(net.junctions[3].get_waiting_package_count(), 1); // Should receive from all paths but only accept 1
    assert_eq!(net.junctions[3].get_duplicate_package_count(), 2); // Should have received 2 duplicate packages

    let received_package = net.junctions[3].recv().unwrap();
    assert_eq!(received_package.json, ping);

    // Assert best route to junction "1" from "4" exists
    assert!(net.junctions[3].get_best_route(&junction_id1).is_some());

    let pong = json_of("key", "pong");
    assert!(net.junctions[3].send(&pong, &junction_id1));
    net.settle();

    assert_eq!(net.junctions[0].get_waiting_package_count(), 1); // Should receive only from one best path
}

#[test]
fn test_junction_pair() {
    let mut net = Net::new(&[5555, 6666]);
    net.join(0, 1);
    net.settle();

    let ping = json_of("key", "ping");
    assert!(net.junctions[0].send(&ping, &JunctionId::new("2")));
    net.settle();
    assert_eq!(net.junctions[1].get_waiting_package_count(), 1);

    let received_package = net.junctions[1].recv().unwrap();
    assert_eq!(received_package.json, ping);
    assert_eq!(received_package.addr, addr_of(5555));

    // Send pong response back to junction1
    let pong = json_of("key", "pong");
    assert!(net.junctions[1].send(&pong, &JunctionId::new("1")));
    net.settle();

    // Check waiting package count before receiving pong
    assert_eq!(net.junctions[0].get_waiting_package_count(), 1);

    // Verify junction1 received the pong
    let pong_package = net.junctions[0].recv().unwrap();
    assert_eq!(pong_package.json, pong);
    assert_eq!(pong_package.addr, addr_of(6666));
}

#[test]
fn test_junction_ping() {
    let mut net = Net::new(&[7777, 8888]);
    net.join(0, 1);
    net.settle();

    // Use the ping function
    net.junctions[0].ping(&JunctionId::new("2"));
    net.settle();

    // Assert the pong count of junction1 is 1
    assert_eq!(net.junctions[0].get_pong_counter(), 1);
    assert!(net.junctions[1].get_unique_package_count() >= 1);
}

#[test]
fn test_hello_makes_peers_known_and_is_answered_once() {
    let a = addr_of(1);
    let b = addr_of(2);
    let mut one = JunctionState::new(a, JunctionId::new("1"));
    let mut two = JunctionState::new(b, JunctionId::new("2"));
    let hello = one.join(b);
    assert_eq!(hello.targets, vec![b]);
    assert_eq!(hello.package.package_type(), Ok(PackageType::Hello));
    assert_eq!(hello.package.package_id(), 0);
    assert_eq!(hello.package.recipient_id(), &JunctionId::new("none"));
    assert_eq!(one.get_known_junction_count(), 0);

    let reply = match two.on_package_received(hello.package, a) {
        Reaction::Transmit(d) => d,
        _ => panic!("an opening hello is answered"),
    };
    assert_eq!(two.get_known_junction_count(), 1);
    assert_eq!(reply.targets, vec![a]);
    assert_eq!(reply.package.package_id(), 1);
    assert_eq!(reply.package.sender_id(), &JunctionId::new("2"));
    // a hello is no package of the route table
    assert_eq!(two.get_unique_package_count(), 0);
    assert_eq!(two.get_best_route(&JunctionId::new("1")), None);

    assert!(matches!(
        one.on_package_received(reply.package, b),
        Reaction::Nothing
    ));
    assert_eq!(one.get_known_junction_count(), 1);
}

#[test]
fn test_seed_and_broadcast_without_route() {
    let me = addr_of(10);
    let mut junction = JunctionState::new(me, JunctionId::new("me"));
    junction.seed(me);
    assert_eq!(junction.get_known_junction_count(), 0);
    junction.seed(addr_of(11));
    junction.seed(addr_of(12));
    junction.seed(addr_of(11));
    assert_eq!(junction.get_known_junction_count(), 2);

    junction.send_bin(&[1, 2, 3], &JunctionId::new("far"));
    junction.pong(&JunctionId::new("far"));
    assert_eq!(junction.get_queued_package_count(), 2);
    let first = junction.next_outgoing().unwrap();
    assert_eq!(first.targets, vec![addr_of(11), addr_of(12)]);
    assert_eq!(first.package.package_id(), 1);
    assert_eq!(first.package.package_type(), Ok(PackageType::Bin));
    assert_eq!(first.package.payload, vec![1, 2, 3]);
    let second = junction.next_outgoing().unwrap();
    assert_eq!(second.package.package_id(), 2);
    assert_eq!(second.package.package_type(), Ok(PackageType::Pong));
    assert!(junction.next_outgoing().is_none());
    assert_eq!(junction.get_sent_package_count(), 2);
}

#[test]
fn test_relay_goes_to_best_route_or_to_all_but_source() {
    let mut relay = JunctionState::new(addr_of(20), JunctionId::new("relay"));
    relay.seed(addr_of(21));
    relay.seed(addr_of(22));
    relay.seed(addr_of(23));

    // nothing is known of "far": the package goes to all but its source
    let mut package =
        SlowPackage::new_bin_payload(JunctionId::new("far"), JunctionId::new("near"), &[7]);
    package.set_package_id(1);
    let sent = match relay.on_package_received(package, addr_of(22)) {
        Reaction::Transmit(d) => d,
        _ => panic!("a new package for another junction is sent on"),
    };
    assert_eq!(sent.targets, vec![addr_of(21), addr_of(23)]);
    assert_eq!(sent.package.hop_count(), 1);
    assert_eq!(sent.package.package_id(), 1);
    assert_eq!(relay.get_unique_package_count(), 1);

    // the same package from another side is dropped
    let mut again =
        SlowPackage::new_bin_payload(JunctionId::new("far"), JunctionId::new("near"), &[7]);
    again.set_package_id(1);
    assert!(matches!(
        relay.on_package_received(again, addr_of(23)),
        Reaction::Nothing
    ));
    assert_eq!(relay.get_duplicate_package_count(), 1);
    assert_eq!(relay.get_unique_package_count(), 1);

    // "near" was heard through 22 without hops and through 23: a package for it takes 22
    let mut back =
        SlowPackage::new_bin_payload(JunctionId::new("near"), JunctionId::new("far"), &[8]);
    back.set_package_id(1);
    back.increment_hops();
    let sent = match relay.on_package_received(back, addr_of(21)) {
        Reaction::Transmit(d) => d,
        _ => panic!("a new package for another junction is sent on"),
    };
    assert_eq!(sent.targets, vec![addr_of(22)]);
    assert_eq!(sent.package.hop_count(), 2);
}

#[test]
fn test_relay_names_the_fallback() {
    let mut relay = JunctionState::new(addr_of(80), JunctionId::new("relay"));
    relay.seed(addr_of(81));
    relay.seed(addr_of(82));
    relay.seed(addr_of(83));
    // "far" is heard of through 83
    let mut seen = SlowPackage::new_bin_payload(JunctionId::new("x"), JunctionId::new("far"), &[1]);
    seen.set_package_id(1);
    let first = match relay.on_package_received(seen, addr_of(83)) {
        Reaction::Transmit(d) => d,
        _ => panic!("a new package for another junction is sent on"),
    };
    // nothing is known of "x": all but the source, and nothing to fall back to
    assert_eq!(first.targets, vec![addr_of(81), addr_of(82)]);
    assert!(first.fallback.is_empty());

    // a package for "far" goes to 83 alone; should that fail, to all but its source
    let mut package =
        SlowPackage::new_bin_payload(JunctionId::new("far"), JunctionId::new("near"), &[2]);
    package.set_package_id(1);
    let sent = match relay.on_package_received(package, addr_of(81)) {
        Reaction::Transmit(d) => d,
        _ => panic!("a new package for another junction is sent on"),
    };
    assert_eq!(sent.targets, vec![addr_of(83)]);
    assert_eq!(sent.fallback, vec![addr_of(82), addr_of(83)]);
    assert_eq!(
        relay.send_to_best_route(&sent.package),
        Some(addr_of(83))
    );
    assert_eq!(
        relay.send_to_known_junctions(Some(addr_of(81))),
        vec![addr_of(82), addr_of(83)]
    );
    assert_eq!(
        relay.send_to_known_junctions(None),
        vec![addr_of(81), addr_of(82), addr_of(83)]
    );
    let unknown = SlowPackage::new_ping(JunctionId::new("nowhere"), JunctionId::new("relay"));
    assert_eq!(relay.send_to_best_route(&unknown), None);

    // the junction's own packages fall back to every known peer
    relay.ping(&JunctionId::new("far"));
    let own = relay.next_outgoing().unwrap();
    assert_eq!(own.targets, vec![addr_of(83)]);
    assert_eq!(
        own.fallback,
        vec![addr_of(81), addr_of(82), addr_of(83)]
    );
}

#[test]
fn test_square_reply_survives_a_lost_route() {
    let mut net = Net::new(&[1113, 2223, 3333, 4443]);
    net.join(0, 1);
    net.join(0, 2);
    net.join(1, 3);
    net.join(2, 3);
    net.settle();
    let ping = json_of("key", "ping");
    assert!(net.junctions[0].send(&ping, &JunctionId::new("4")));
    net.settle();
    assert_eq!(net.junctions[3].get_waiting_package_count(), 1);

    // the best route of junction4 towards "1" goes down: the reply takes the other side
    let best = net.junctions[3]
        .get_best_route(&JunctionId::new("1"))
        .unwrap();
    net.down.push(best);
    let pong = json_of("key", "pong");
    assert!(net.junctions[3].send(&pong, &JunctionId::new("1")));
    net.settle();
    assert_eq!(net.junctions[0].get_waiting_package_count(), 1);
    let reply = net.junctions[0].recv().unwrap();
    assert_eq!(reply.json, pong);
    assert!(reply.addr != best);
}

#[test]
fn test_relay_drops_at_hop_limit() {
    let mut relay = JunctionState::new(addr_of(30), JunctionId::new("relay"));
    relay.seed(addr_of(31));
    relay.seed(addr_of(32));
    let mut tired =
        SlowPackage::new_bin_payload(JunctionId::new("far"), JunctionId::new("near"), &[7]);
    tired.set_package_id(1);
    tired.header.hop_count = 127;
    assert!(matches!(
        relay.on_package_received(tired, addr_of(31)),
        Reaction::Nothing
    ));
    let mut fit = SlowPackage::new_bin_payload(JunctionId::new("far"), JunctionId::new("near"), &[7]);
    fit.set_package_id(2);
    fit.header.hop_count = 126;
    match relay.on_package_received(fit, addr_of(31)) {
        Reaction::Transmit(d) => assert_eq!(d.package.hop_count(), 127),
        _ => panic!("a package with hops left is sent on"),
    }
    let mut spent =
        SlowPackage::new_bin_payload(JunctionId::new("far"), JunctionId::new("near"), &[7]);
    spent.set_package_id(3);
    spent.header.hop_count = 255;
    assert!(matches!(
        relay.on_package_received(spent, addr_of(31)),
        Reaction::Nothing
    ));
    assert_eq!(relay.get_unique_package_count(), 3);
}

#[test]
fn test_local_delivery_by_type() {
    let me = JunctionId::new("me");
    let mut junction = JunctionState::new(addr_of(40), me.clone());
    let from = addr_of(41);
    let peer = JunctionId::new("peer");

    let mut ping = SlowPackage::new_ping(me.clone(), peer.clone());
    ping.set_package_id(1);
    assert!(matches!(
        junction.on_package_received(ping, from),
        Reaction::Queued
    ));
    let pong = junction.next_outgoing().unwrap();
    assert_eq!(pong.package.package_type(), Ok(PackageType::Pong));
    assert_eq!(pong.package.recipient_id(), &peer);
    assert_eq!(pong.package.sender_id(), &me);
    assert_eq!(pong.targets, vec![from]);

    let mut pong_in = SlowPackage::new_pong(me.clone(), peer.clone());
    pong_in.set_package_id(2);
    assert!(matches!(
        junction.on_package_received(pong_in, from),
        Reaction::Nothing
    ));
    assert_eq!(junction.get_pong_counter(), 1);

    let value = json_of("k", "v");
    let mut json = SlowPackage::new_json_payload(me.clone(), peer.clone(), &value);
    json.set_package_id(3);
    assert!(matches!(
        junction.on_package_received(json, from),
        Reaction::Delivered
    ));
    assert_eq!(
        junction.recv(),
        Some(JsonPacket {
            addr: from,
            json: value
        })
    );
    assert_eq!(junction.recv(), None);

    // a Json package whose payload is no JSON is counted and not delivered
    let mut broken = SlowPackage::new_json_text(me.clone(), peer.clone(), b"{".to_vec());
    broken.set_package_id(4);
    assert!(matches!(
        junction.on_package_received(broken, from),
        Reaction::Nothing
    ));
    let mut bin = SlowPackage::new_bin_payload(me.clone(), peer.clone(), &[1]);
    bin.set_package_id(5);
    assert!(matches!(
        junction.on_package_received(bin, from),
        Reaction::Nothing
    ));
    assert_eq!(junction.get_waiting_package_count(), 0);
    assert_eq!(junction.get_unique_package_count(), 5);
    assert_eq!(junction.get_duplicate_package_count(), 0);
}

#[test]
fn test_unreadable_datagram_is_rejected() {
    let me = JunctionId::new("me");
    let mut junction = JunctionState::new(addr_of(70), me.clone());
    assert!(matches!(
        junction.on_datagram_received(&[9, 9, 9], addr_of(71)),
        Reaction::Nothing
    ));
    assert!(matches!(
        junction.on_datagram_received(&[], addr_of(71)),
        Reaction::Nothing
    ));
    assert_eq!(junction.get_rejected_package_count(), 2);
    // nothing is learnt from what cannot be read
    assert_eq!(junction.get_known_junction_count(), 0);
    assert_eq!(junction.get_unique_package_count(), 0);

    let mut ping = SlowPackage::new_ping(me.clone(), JunctionId::new("peer"));
    ping.set_package_id(1);
    let bytes = ping.pack(1);
    assert!(matches!(
        junction.on_datagram_received(&bytes, addr_of(71)),
        Reaction::Queued
    ));
    assert_eq!(junction.get_rejected_package_count(), 2);
    assert_eq!(junction.get_unique_package_count(), 1);
    assert_eq!(junction.get_known_junction_count(), 1);
}

#[test]
fn test_fan_in_delivers_once() {
    let me = JunctionId::new("me");
    let mut junction = JunctionState::new(addr_of(50), me.clone());
    let value = json_of("n", "1");
    for (i, hops) in [3u8, 1, 2, 5].iter().enumerate() {
        let mut copy = SlowPackage::new_json_payload(me.clone(), JunctionId::new("origin"), &value);
        copy.set_package_id(9);
        copy.header.hop_count = *hops;
        let _ = junction.on_package_received(copy, addr_of(60 + i as u16));
    }
    assert_eq!(junction.get_waiting_package_count(), 1);
    assert_eq!(junction.get_unique_package_count(), 1);
    assert_eq!(junction.get_duplicate_package_count(), 3);
    assert_eq!(junction.recv().unwrap().addr, addr_of(60));
    // every path was learnt, and the one with the fewest hops is the best
    assert_eq!(
        junction.get_best_route(&JunctionId::new("origin")),
        Some(addr_of(61))
    );
}
