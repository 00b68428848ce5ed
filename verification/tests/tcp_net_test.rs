use slow::addr::PeerAddr;
use slow::junction::JunctionId;
use slow::package::SlowPackage;
use slow::tcp::tcp_junction::{BroadcastError, TcpJunctionState, TcpReaction};
use slow::tcp::tcp_link::LinkIdSource;
use std::collections::{HashMap, VecDeque};

/// Junctions joined by links that carry every frame, in the order in
/// which they were sent.
struct TcpNet {
    junctions: Vec<TcpJunctionState>,
    ids: Vec<JunctionId>,
    link_ids: LinkIdSource,
    /// For one end of a link, the junction and the number of its other end.
    ends: HashMap<(usize, u64), (usize, u64)>,
    in_flight: VecDeque<(usize, u64, Vec<u8>)>,
}

impl TcpNet {
    fn new(count: usize, base_port: u16) -> TcpNet {
        let mut junctions = Vec::new();
        let mut ids = Vec::new();
        for i in 0..count {
            let id = JunctionId::new(&format!("junction{}", i + 1));
            let addr = PeerAddr::v4(127, 0, 0, 1, base_port + i as u16);
            junctions.push(TcpJunctionState::new(addr, id.clone()));
            ids.push(id);
        }
        TcpNet {
            junctions,
            ids,
            link_ids: LinkIdSource::new(),
            ends: HashMap::new(),
            in_flight: VecDeque::new(),
        }
    }

    fn connect(&mut self, from: usize, to: usize) {
        let near = self.link_ids.next().unwrap();
        let far = self.link_ids.next().unwrap();
        self.junctions[from].add_link(near);
        self.junctions[to].add_link(far);
        self.ends.insert((from, near), (to, far));
        self.ends.insert((to, far), (from, near));
    }

    fn send_on(&mut self, from: usize, link: u64, data: &[u8]) -> Option<usize> {
        let (to, far) = *self.ends.get(&(from, link))?;
        self.in_flight.push_back((to, far, data.to_vec()));
        Some(data.len())
    }

    fn send_package(&mut self, from: usize, package: &SlowPackage) -> Result<usize, BroadcastError> {
        let data = self.junctions[from].prepare_package(package);
        let links = self.junctions[from].broadcast_links(None);
        let mut results = Vec::new();
        for link in links {
            results.push(self.send_on(from, link, &data));
        }
        self.junctions[from].finish_send(&results)
    }

    fn close(&mut self, at: usize) {
        let links = self.junctions[at].broadcast_links(None);
        for link in links {
            self.junctions[at].remove_link(link);
            if let Some((peer, far)) = self.ends.remove(&(at, link)) {
                self.junctions[peer].remove_link(far);
                self.ends.remove(&(peer, far));
            }
        }
    }

    /// Carries frames until none is in flight.
    fn settle(&mut self) {
        let mut carried = 0;
        while let Some((at, link, data)) = self.in_flight.pop_front() {
            carried += 1;
            assert!(carried < 100_000, "the network does not come to rest");
            match self.junctions[at].process(&data, link) {
                TcpReaction::Nothing | TcpReaction::Delivered => {}
                TcpReaction::Forward {
                    data,
                    link,
                    fallback,
                } => {
                    if self.send_on(at, link, &data).is_some() {
                        self.junctions[at].note_sent();
                    } else {
                        for other in fallback {
                            let _ = self.send_on(at, other, &data);
                        }
                    }
                }
                TcpReaction::Broadcast { data, links } => {
                    for other in links {
                        let _ = self.send_on(at, other, &data);
                    }
                }
            }
        }
    }
}

#[test]
fn test_tcp_junction_line() {
    let mut net = TcpNet::new(4, 9101);
    net.connect(0, 1);
    net.connect(1, 2);
    net.connect(2, 3);

    assert_eq!(net.junctions[0].link_count(), 1, "Junction1 should have 1 link");
    assert_eq!(net.junctions[1].link_count(), 2, "Junction2 should have 2 links");
    assert_eq!(net.junctions[2].link_count(), 2, "Junction3 should have 2 links");
    assert_eq!(net.junctions[3].link_count(), 1, "Junction4 should have 1 link");

    let howdy_package = SlowPackage::new_howdy(net.ids[0].clone());
    let bytes_sent = net
        .send_package(0, &howdy_package)
        .expect("Failed to send howdy package from junction1");
    assert_eq!(
        bytes_sent,
        howdy_package.pack(0).len(),
        "Bytes sent should match packaged data length"
    );
    net.settle();

    assert_eq!(net.junctions[0].received_package_count(), 0);
    assert_eq!(net.junctions[1].received_package_count(), 1);
    assert_eq!(net.junctions[2].received_package_count(), 1);
    assert_eq!(net.junctions[3].received_package_count(), 1);

    for at in 0..4 {
        net.close(at);
    }
    for at in 0..4 {
        assert_eq!(net.junctions[at].link_count(), 0);
    }
}

#[test]
fn test_tcp_junction_triangle() {
    let mut net = TcpNet::new(3, 9201);
    net.connect(0, 1);
    net.connect(1, 2);
    net.connect(2, 0);
    for at in 0..3 {
        assert_eq!(net.junctions[at].link_count(), 2);
    }

    let test_package = SlowPackage::new_howdy(net.ids[0].clone());
    let bytes_sent = net.send_package(0, &test_package).unwrap();
    assert_eq!(bytes_sent, test_package.pack(0).len());
    net.settle();

    assert_eq!(net.junctions[2].received_package_count(), 1);
    assert_eq!(net.junctions[2].rejected_package_count(), 1);
    assert_eq!(net.junctions[1].received_package_count(), 1);
    assert_eq!(net.junctions[1].rejected_package_count(), 1);
    assert_eq!(net.junctions[0].received_package_count(), 0);

    let response_message = b"Response from junction3 to junction1";
    let response_package =
        SlowPackage::new_bin_payload(net.ids[0].clone(), net.ids[2].clone(), response_message);
    let bytes_sent = net.send_package(2, &response_package).unwrap();
    assert_eq!(bytes_sent, response_package.pack(0).len());
    net.settle();

    assert_eq!(net.junctions[0].received_package_count(), 1);
    assert_eq!(net.junctions[0].waiting_package_count(), 1);
    let received = net.junctions[0].receive_package().unwrap();
    assert_eq!(received.payload, response_message.to_vec());
    assert_eq!(received.sender_id(), &net.ids[2]);

    for at in 0..3 {
        net.close(at);
    }
    for at in 0..3 {
        assert_eq!(net.junctions[at].link_count(), 0);
    }
}

#[test]
fn test_tcp_junction_hello() {
    let count = 16;
    let mut net = TcpNet::new(count, 9300);
    for i in 0..count {
        net.connect(i, (i + 1) % count);
        let other = (i * 7 + 3) % count;
        if other != i {
            net.connect(i, other);
        }
    }
    for at in 0..count {
        assert!(net.junctions[at].link_count() > 0);
    }

    let source = 5;
    let howdy_package = SlowPackage::new_howdy(net.ids[source].clone());
    let bytes_sent = net
        .send_package(source, &howdy_package)
        .expect("Failed to send howdy package");
    assert_eq!(bytes_sent, howdy_package.pack(0).len());
    net.settle();

    // every junction but the source received the package exactly once
    for at in 0..count {
        if at == source {
            continue;
        }
        assert_eq!(
            net.junctions[at].received_package_count(),
            1,
            "Junction{} should have received exactly 1 package",
            at + 1
        );
    }
}

#[test]
fn test_tcp_junction_forward_falls_back() {
    let mut net = TcpNet::new(3, 9400);
    net.connect(0, 1);
    net.connect(1, 2);
    // junction2 hears of junction3 on its link to it
    let announce = SlowPackage::new_howdy(net.ids[2].clone());
    net.send_package(2, &announce).unwrap();
    net.settle();
    assert_eq!(net.junctions[1].received_package_count(), 1);
    assert_eq!(net.junctions[0].received_package_count(), 1);

    // the link goes down on the far side only: forwarding fails, nothing is left to fall back to
    let to_three = net.junctions[1].broadcast_links(None)[1];
    net.ends.remove(&(1, to_three));
    let package = SlowPackage::new_bin_payload(net.ids[2].clone(), net.ids[0].clone(), &[1]);
    net.send_package(0, &package).unwrap();
    net.settle();
    assert_eq!(net.junctions[1].received_package_count(), 2);
    assert_eq!(net.junctions[1].sent_package_count(), 0);
    assert_eq!(net.junctions[2].received_package_count(), 0);
}
