//! The junction over datagrams: what it keeps, and what it decides when a
//! package arrives or is to be sent. The socket and the waiting are left
//! to whoever drives the junction: each method takes what happened and
//! answers with what is to be done.

pub use crate::junction_id::JunctionId;

use crate::addr::PeerAddr;
use crate::fanout::{lemma_without, without};
use crate::json::json_value;
use crate::package::{fresh_package, parse, PackageType, PackageView, SlowPackage, MAX_HOPS};
use crate::route::{best_route, routes_to, table_updated, RouteEntry, RouteInfo, RouteTable, TableView};
use crate::tracker::lemma_second_offer_is_duplicate;
use std::collections::VecDeque;
use vstd::prelude::*;

verus! {

/// A JSON value that arrived, with the address it arrived from.
#[derive(PartialEq, Debug)]
pub struct JsonPacket {
    pub addr: PeerAddr,
    pub json: serde_json::Value,
}

/// A package to transmit, the peers to transmit it to, and the peers to
/// fall back to: where a transmission to a target fails, the package is
/// to go to each peer of `fallback` instead.
pub struct Dispatch {
    pub package: SlowPackage,
    pub targets: Vec<PeerAddr>,
    pub fallback: Vec<PeerAddr>,
}

/// A dispatch as plain values.
pub struct DispatchView {
    pub package: PackageView,
    pub targets: Seq<PeerAddr>,
    pub fallback: Seq<PeerAddr>,
}

impl View for Dispatch {
    type V = DispatchView;

    open spec fn view(&self) -> DispatchView {
        DispatchView {
            package: self.package@,
            targets: self.targets@,
            fallback: self.fallback@,
        }
    }
}

/// What is to be done after a package arrived.
pub enum Reaction {
    /// Nothing.
    Nothing,
    /// A package is to be transmitted.
    Transmit(Dispatch),
    /// A value was queued for the application: a waiting receiver is to
    /// be woken.
    Delivered,
    /// A package was queued for sending: the sender is to be woken.
    Queued,
}

/// A reaction as plain values.
pub enum ReactionView {
    Nothing,
    Transmit(DispatchView),
    Delivered,
    Queued,
}

impl View for Reaction {
    type V = ReactionView;

    open spec fn view(&self) -> ReactionView {
        match self {
            Reaction::Nothing => ReactionView::Nothing,
            Reaction::Transmit(d) => ReactionView::Transmit(d@),
            Reaction::Delivered => ReactionView::Delivered,
            Reaction::Queued => ReactionView::Queued,
        }
    }
}

/// A 32-bit count raised by one, starting again at zero after the
/// largest number.
pub open spec fn next_u32(count: u32) -> u32 {
    if count == u32::MAX {
        0
    } else {
        (count + 1) as u32
    }
}

/// A count raised by one, starting again at zero after the largest
/// number.
pub open spec fn next_usize(count: usize) -> usize {
    if count == usize::MAX {
        0
    } else {
        (count + 1) as usize
    }
}

/// The known peers with `addr` among them: added at the end unless it is
/// known already.
pub open spec fn with_peer(known: Seq<PeerAddr>, addr: PeerAddr) -> Seq<PeerAddr> {
    if known.contains(addr) {
        known
    } else {
        known.push(addr)
    }
}

/// Where a package for `recipient` goes: to the best next hop where one
/// is known, else to every known peer but `except`.
pub open spec fn targets_for(
    known: Seq<PeerAddr>,
    routes: TableView,
    recipient: Seq<char>,
    except: Option<PeerAddr>,
) -> Seq<PeerAddr> {
    match best_route(routes, recipient) {
        Some(best) => seq![best],
        None => without(known, except),
    }
}

/// Where a package for `recipient` goes if the transmission to the best
/// next hop fails: to every known peer but `except`. Where no next hop is
/// known the package goes to all of them at once, and there is nothing
/// to fall back to.
pub open spec fn fallback_for(
    known: Seq<PeerAddr>,
    routes: TableView,
    recipient: Seq<char>,
    except: Option<PeerAddr>,
) -> Seq<PeerAddr> {
    match best_route(routes, recipient) {
        Some(_) => without(known, except),
        None => Seq::empty(),
    }
}

/// A junction as plain values.
pub struct JunctionView {
    /// The name of the junction.
    pub junction_id: Seq<char>,
    /// The address of the junction.
    pub addr: PeerAddr,
    /// The peers known, in the order in which they became known.
    pub known: Seq<PeerAddr>,
    /// The packages waiting to be sent.
    pub send_queue: Seq<PackageView>,
    /// The values waiting for the application, each with its source.
    pub received: Seq<(PeerAddr, serde_json::Value)>,
    /// The routes learnt.
    pub routes: TableView,
    /// Pongs received.
    pub pong_counter: u32,
    /// Packages sent; the last id given out.
    pub sent_package_count: u32,
    /// Packages received that were new.
    pub unique_package_count: u32,
    /// Packages received that were seen before.
    pub duplicate_package_count: usize,
    /// Datagrams received that were no package.
    pub rejected_package_count: usize,
}

/// The route entry that a package makes when it arrives from `from`.
pub open spec fn entry_for(p: PackageView, from: PeerAddr) -> RouteEntry {
    RouteEntry { addr: from, info: RouteInfo { hops: p.hop_count, time_bits: 0 } }
}

/// Whether a package from its sender with its id is new to the junction.
pub open spec fn is_new(s: JunctionView, p: PackageView) -> bool {
    routes_to(s.routes, p.sender).admits(p.package_id)
}

/// The junction after the package `p` arrived from `from`.
pub open spec fn after_receive(s: JunctionView, p: PackageView, from: PeerAddr) -> JunctionView {
    let known = with_peer(s.known, from);
    if p.package_type == PackageType::Hello.code() {
        JunctionView { known, ..s }
    } else {
        let routes = table_updated(s.routes, p.sender, entry_for(p, from), p.package_id);
        if !is_new(s, p) {
            JunctionView {
                known,
                routes,
                duplicate_package_count: next_usize(s.duplicate_package_count),
                ..s
            }
        } else {
            let counted = JunctionView {
                known,
                routes,
                unique_package_count: next_u32(s.unique_package_count),
                ..s
            };
            if p.recipient != s.junction_id {
                counted
            } else if p.package_type == PackageType::Ping.code() {
                JunctionView {
                    send_queue: s.send_queue.push(
                        fresh_package(PackageType::Pong, p.sender, s.junction_id, 0, Seq::empty()),
                    ),
                    ..counted
                }
            } else if p.package_type == PackageType::Pong.code() {
                JunctionView { pong_counter: next_u32(s.pong_counter), ..counted }
            } else if p.package_type == PackageType::Json.code() {
                match json_value(p.payload) {
                    Some(json) => JunctionView {
                        received: s.received.push((from, json)),
                        ..counted
                    },
                    None => counted,
                }
            } else {
                counted
            }
        }
    }
}

/// What is to be done after the package `p` arrived from `from`.
pub open spec fn reaction_to(s: JunctionView, p: PackageView, from: PeerAddr) -> ReactionView {
    if p.package_type == PackageType::Hello.code() {
        if p.package_id == 0 {
            ReactionView::Transmit(
                DispatchView {
                    package: fresh_package(
                        PackageType::Hello,
                        "none"@,
                        s.junction_id,
                        1,
                        Seq::empty(),
                    ),
                    targets: seq![from],
                    fallback: Seq::empty(),
                },
            )
        } else {
            ReactionView::Nothing
        }
    } else if !is_new(s, p) {
        ReactionView::Nothing
    } else if p.recipient != s.junction_id {
        if p.hop_count + 1 >= MAX_HOPS {
            ReactionView::Nothing
        } else {
            ReactionView::Transmit(
                DispatchView {
                    package: PackageView { hop_count: (p.hop_count + 1) as u8, ..p },
                    targets: targets_for(
                        with_peer(s.known, from),
                        table_updated(s.routes, p.sender, entry_for(p, from), p.package_id),
                        p.recipient,
                        Some(from),
                    ),
                    fallback: fallback_for(
                        with_peer(s.known, from),
                        table_updated(s.routes, p.sender, entry_for(p, from), p.package_id),
                        p.recipient,
                        Some(from),
                    ),
                },
            )
        }
    } else if p.package_type == PackageType::Ping.code() {
        ReactionView::Queued
    } else if p.package_type == PackageType::Json.code() && json_value(p.payload) is Some {
        ReactionView::Delivered
    } else {
        ReactionView::Nothing
    }
}

/// The junction after the datagram `data` arrived from `from`: bytes that
/// are no package are counted as rejected, a package is taken as
/// `after_receive` says.
pub open spec fn after_datagram(s: JunctionView, data: Seq<u8>, from: PeerAddr) -> JunctionView {
    match parse(data) {
        Some(p) => after_receive(s, p, from),
        None => JunctionView {
            rejected_package_count: next_usize(s.rejected_package_count),
            ..s
        },
    }
}

/// What is to be done after the datagram `data` arrived from `from`.
pub open spec fn reaction_to_datagram(s: JunctionView, data: Seq<u8>, from: PeerAddr) -> ReactionView {
    match parse(data) {
        Some(p) => reaction_to(s, p, from),
        None => ReactionView::Nothing,
    }
}

/// The junction after the first package of its send queue was taken to
/// be sent.
pub open spec fn after_outgoing(s: JunctionView) -> JunctionView {
    if s.send_queue.len() == 0 {
        s
    } else {
        JunctionView {
            send_queue: s.send_queue.drop_first(),
            sent_package_count: next_u32(s.sent_package_count),
            ..s
        }
    }
}

/// The first package of the send queue under its new id, with the peers
/// to send it to and those to fall back to; `None` where the queue is
/// empty.
pub open spec fn outgoing(s: JunctionView) -> Option<DispatchView> {
    if s.send_queue.len() == 0 {
        None
    } else {
        Some(
            DispatchView {
                package: s.send_queue[0].with_id(next_u32(s.sent_package_count)),
                targets: targets_for(s.known, s.routes, s.send_queue[0].recipient, None),
                fallback: fallback_for(s.known, s.routes, s.send_queue[0].recipient, None),
            },
        )
    }
}

/// What a junction keeps: its name and address, the peers it knows, its
/// two queues, its routes and its counters.
pub struct JunctionState {
    junction_id: JunctionId,
    addr: PeerAddr,
    known_junctions: Vec<PeerAddr>,
    send_queue: VecDeque<SlowPackage>,
    received_queue: VecDeque<JsonPacket>,
    route_table: RouteTable,
    pong_counter: u32,
    sent_package_count: u32,
    unique_package_count: u32,
    duplicate_package_count: usize,
    rejected_package_count: usize,
}

impl View for JunctionState {
    type V = JunctionView;

    closed spec fn view(&self) -> JunctionView {
        JunctionView {
            junction_id: self.junction_id@,
            addr: self.addr,
            known: self.known_junctions@,
            send_queue: Seq::new(self.send_queue@.len(), |i: int| self.send_queue@[i]@),
            received: Seq::new(
                self.received_queue@.len(),
                |i: int| (self.received_queue@[i].addr, self.received_queue@[i].json),
            ),
            routes: self.route_table@,
            pong_counter: self.pong_counter,
            sent_package_count: self.sent_package_count,
            unique_package_count: self.unique_package_count,
            duplicate_package_count: self.duplicate_package_count,
            rejected_package_count: self.rejected_package_count,
        }
    }
}

fn bump_u32(count: u32) -> (r: u32)
    ensures
        r == next_u32(count),
{
    if count == u32::MAX {
        0
    } else {
        count + 1
    }
}

fn bump_usize(count: usize) -> (r: usize)
    ensures
        r == next_usize(count),
{
    if count == usize::MAX {
        0
    } else {
        count + 1
    }
}

impl JunctionState {
    /// What `new` establishes and every method keeps: no peer is known
    /// twice, and the route table is in order.
    pub closed spec fn wf(self) -> bool {
        &&& self.known_junctions@.no_duplicates()
        &&& self.route_table.wf()
    }

    /// A well-formed junction knows no peer twice.
    pub proof fn lemma_known_distinct(self)
        requires
            self.wf(),
        ensures
            self@.known.no_duplicates(),
    {
    }

    /// A junction that knows no peer and no route, with empty queues and
    /// all counters at zero.
    pub fn new(addr: PeerAddr, junction_id: JunctionId) -> (s: JunctionState)
        ensures
            s.wf(),
            s@ == (JunctionView {
                junction_id: junction_id@,
                addr,
                known: Seq::empty(),
                send_queue: Seq::empty(),
                received: Seq::empty(),
                routes: Map::empty(),
                pong_counter: 0,
                sent_package_count: 0,
                unique_package_count: 0,
                duplicate_package_count: 0,
                rejected_package_count: 0,
            }),
    {
        let s = JunctionState {
            junction_id,
            addr,
            known_junctions: Vec::new(),
            send_queue: VecDeque::new(),
            received_queue: VecDeque::new(),
            route_table: RouteTable::new(),
            pong_counter: 0,
            sent_package_count: 0,
            unique_package_count: 0,
            duplicate_package_count: 0,
            rejected_package_count: 0,
        };
        assert(s@.send_queue =~= Seq::empty());
        assert(s@.received =~= Seq::empty());
        s
    }

    fn knows(&self, addr: PeerAddr) -> (r: bool)
        ensures
            r == self@.known.contains(addr),
    {
        let mut i: usize = 0;
        while i < self.known_junctions.len()
            invariant
                i <= self.known_junctions.len(),
                forall|k: int| 0 <= k < i ==> self.known_junctions@[k] != addr,
            decreases self.known_junctions.len() - i,
        {
            if self.known_junctions[i] == addr {
                return true;
            }
            i += 1;
        }
        false
    }

    fn note_peer(&mut self, addr: PeerAddr)
        requires
            old(self).wf(),
        ensures
            final(self).wf(),
            final(self)@ == (JunctionView { known: with_peer(old(self)@.known, addr), ..old(self)@ }),
    {
        if !self.knows(addr) {
            self.known_junctions.push(addr);
        }
    }

    fn queue_for_sending(&mut self, package: SlowPackage)
        requires
            old(self).wf(),
        ensures
            final(self).wf(),
            final(self)@ == (JunctionView {
                send_queue: old(self)@.send_queue.push(package@),
                ..old(self)@
            }),
    {
        self.send_queue.push_back(package);
        assert(self@.send_queue =~= old(self)@.send_queue.push(package@));
    }

    /// The known peers in their order, `except` left out.
    fn peers_without(&self, except: Option<PeerAddr>) -> (r: Vec<PeerAddr>)
        ensures
            r@ == without(self@.known, except),
    {
        let mut out: Vec<PeerAddr> = Vec::new();
        let mut i: usize = 0;
        while i < self.known_junctions.len()
            invariant
                i <= self.known_junctions.len(),
                out@ == without(self.known_junctions@.take(i as int), except),
            decreases self.known_junctions.len() - i,
        {
            let addr = self.known_junctions[i];
            proof {
                let next = self.known_junctions@.take(i + 1);
                assert(next.drop_last() =~= self.known_junctions@.take(i as int));
                assert(next.last() == addr);
            }
            let skip = match except {
                Some(e) => e == addr,
                None => false,
            };
            if !skip {
                out.push(addr);
            }
            i += 1;
        }
        assert(self.known_junctions@.take(self.known_junctions@.len() as int)
            =~= self.known_junctions@);
        out
    }

    /// A dispatch of `package` towards its recipient: to the best next
    /// hop, with every known peer but `except` to fall back to, or, where
    /// no next hop is known, to every known peer but `except`.
    fn dispatch(&self, package: SlowPackage, except: Option<PeerAddr>) -> (r: Dispatch)
        requires
            self.wf(),
        ensures
            r@ == (DispatchView {
                package: package@,
                targets: targets_for(self@.known, self@.routes, package@.recipient, except),
                fallback: fallback_for(self@.known, self@.routes, package@.recipient, except),
            }),
    {
        let others = self.peers_without(except);
        match self.route_table.get_best_route(package.recipient_id()) {
            Some(best) => {
                let targets = vec![best];
                assert(targets@ =~= seq![best]);
                Dispatch { package, targets, fallback: others }
            },
            None => Dispatch { package, targets: others, fallback: Vec::new() },
        }
    }

    /// Where to send `package` if a route to its recipient is known: the
    /// best next hop, to which alone it then goes. `None` where no route
    /// is known, and nothing is to be sent on this account.
    pub fn send_to_best_route(&self, package: &SlowPackage) -> (r: Option<PeerAddr>)
        requires
            self.wf(),
        ensures
            r == best_route(self@.routes, package@.recipient),
    {
        self.route_table.get_best_route(package.recipient_id())
    }

    /// Where to send a package that goes to every known peer but
    /// `exclude_addr`: those peers, each once, in the order in which they
    /// became known.
    pub fn send_to_known_junctions(&self, exclude_addr: Option<PeerAddr>) -> (r: Vec<PeerAddr>)
        ensures
            r@ == without(self@.known, exclude_addr),
    {
        self.peers_without(exclude_addr)
    }

    /// Takes a datagram that arrived from `sender_addr`. Bytes that are no
    /// package are counted as rejected; a package is taken as
    /// `on_package_received` takes it.
    pub fn on_datagram_received(&mut self, data: &[u8], sender_addr: PeerAddr) -> (r: Reaction)
        requires
            old(self).wf(),
        ensures
            final(self).wf(),
            final(self)@ == after_datagram(old(self)@, data@, sender_addr),
            r@ == reaction_to_datagram(old(self)@, data@, sender_addr),
    {
        match SlowPackage::unpack(data) {
            Some(package) => self.on_package_received(package, sender_addr),
            None => {
                self.rejected_package_count = bump_usize(self.rejected_package_count);
                Reaction::Nothing
            },
        }
    }

    /// Takes a package that arrived from `sender_addr`. A Hello makes the
    /// source known and, with id 0, is answered. Any other package makes
    /// the source known and is recorded in the route table; one seen
    /// before is counted and dropped; a new one is counted and then
    /// delivered here or sent on, with one hop more, towards its
    /// recipient.
    pub fn on_package_received(&mut self, package: SlowPackage, sender_addr: PeerAddr) -> (r:
        Reaction)
        requires
            old(self).wf(),
        ensures
            final(self).wf(),
            final(self)@ == after_receive(old(self)@, package@, sender_addr),
            r@ == reaction_to(old(self)@, package@, sender_addr),
    {
        let package_type = package.package_type();
        if let Ok(PackageType::Hello) = package_type {
            let reaction = if package.package_id() == 0 {
                let reply = SlowPackage::new_hello(1, self.junction_id.clone());
                let targets = vec![sender_addr];
                assert(targets@ =~= seq![sender_addr]);
                Reaction::Transmit(Dispatch { package: reply, targets, fallback: Vec::new() })
            } else {
                Reaction::Nothing
            };
            self.note_peer(sender_addr);
            return reaction;
        }
        self.note_peer(sender_addr);
        let is_updated = self.route_table.update_route(
            package.sender_id(),
            sender_addr,
            package.hop_count(),
            0,
            package.package_id(),
        );
        if !is_updated {
            self.duplicate_package_count = bump_usize(self.duplicate_package_count);
            return Reaction::Nothing;
        }
        self.unique_package_count = bump_u32(self.unique_package_count);
        if !(*package.recipient_id() == self.junction_id) {
            return self.forward(package, sender_addr);
        }
        match package_type {
            Ok(PackageType::Ping) => {
                let pong = SlowPackage::new_pong(
                    package.sender_id().clone(),
                    self.junction_id.clone(),
                );
                self.queue_for_sending(pong);
                Reaction::Queued
            },
            Ok(PackageType::Pong) => {
                self.pong_counter = bump_u32(self.pong_counter);
                Reaction::Nothing
            },
            Ok(PackageType::Json) => {
                match package.json_payload() {
                    Some(json) => {
                        let ghost before = self@.received;
                        self.received_queue.push_back(JsonPacket { addr: sender_addr, json });
                        assert(self@.received =~= before.push((sender_addr, json)));
                        Reaction::Delivered
                    },
                    None => Reaction::Nothing,
                }
            },
            _ => Reaction::Nothing,
        }
    }

    /// Sends a package on: with one hop more, to the best next hop
    /// towards its recipient, and if that fails or none is known, to
    /// every known peer but the one it came from. A package that would
    /// reach 128 hops is dropped.
    fn forward(&self, package: SlowPackage, sender_addr: PeerAddr) -> (r: Reaction)
        requires
            self.wf(),
        ensures
            package@.hop_count + 1 >= MAX_HOPS ==> r@ == ReactionView::Nothing,
            package@.hop_count + 1 < MAX_HOPS ==> r@ == ReactionView::Transmit(
                DispatchView {
                    package: PackageView {
                        hop_count: (package@.hop_count + 1) as u8,
                        ..package@
                    },
                    targets: targets_for(
                        self@.known,
                        self@.routes,
                        package@.recipient,
                        Some(sender_addr),
                    ),
                    fallback: fallback_for(
                        self@.known,
                        self@.routes,
                        package@.recipient,
                        Some(sender_addr),
                    ),
                },
            ),
    {
        let mut package = package;
        if package.hop_count() >= MAX_HOPS - 1 {
            return Reaction::Nothing;
        }
        let _ = package.increment_hops();
        Reaction::Transmit(self.dispatch(package, Some(sender_addr)))
    }

    /// Takes the next package of the send queue: it gets the next id of
    /// this junction and goes to the best next hop towards its recipient
    /// and, if that fails or none is known, to every known peer. `None`
    /// where the queue is empty.
    pub fn next_outgoing(&mut self) -> (r: Option<Dispatch>)
        requires
            old(self).wf(),
        ensures
            final(self).wf(),
            final(self)@ == after_outgoing(old(self)@),
            match outgoing(old(self)@) {
                Some(d) => r matches Some(x) && x@ == d,
                None => r is None,
            },
    {
        let ghost before = self@.send_queue;
        match self.send_queue.pop_front() {
            Some(package) => {
                let mut package = package;
                assert(self@.send_queue =~= before.drop_first());
                assert(package@ == before[0]);
                let package_id = bump_u32(self.sent_package_count);
                self.sent_package_count = package_id;
                package.set_package_id(package_id);
                Some(self.dispatch(package, None))
            },
            None => {
                assert(self@.send_queue =~= before);
                None
            },
        }
    }

    /// Queues `package` for sending.
    pub fn enqueue(&mut self, package: SlowPackage)
        requires
            old(self).wf(),
        ensures
            final(self).wf(),
            final(self)@ == (JunctionView {
                send_queue: old(self)@.send_queue.push(package@),
                ..old(self)@
            }),
    {
        self.queue_for_sending(package);
    }

    /// Queues a Json package for `recipient_id` that carries `json`.
    /// Returns `false`, with nothing queued, where the value cannot be
    /// written as JSON text.
    pub fn send(&mut self, json: &serde_json::Value, recipient_id: &JunctionId) -> (r: bool)
        requires
            old(self).wf(),
        ensures
            final(self).wf(),
            r == crate::json::json_text(*json).is_some(),
            !r ==> final(self)@ == old(self)@,
            r ==> final(self)@ == (JunctionView {
                send_queue: old(self)@.send_queue.push(
                    fresh_package(
                        PackageType::Json,
                        recipient_id@,
                        old(self)@.junction_id,
                        0,
                        crate::json::json_text(*json).unwrap(),
                    ),
                ),
                ..old(self)@
            }),
    {
        match SlowPackage::try_new_json_payload(
            recipient_id.clone(),
            self.junction_id.clone(),
            json,
        ) {
            Some(package) => {
                self.queue_for_sending(package);
                true
            },
            None => false,
        }
    }

    /// Queues a Bin package for `recipient_id` that carries `bytes`.
    pub fn send_bin(&mut self, bytes: &[u8], recipient_id: &JunctionId)
        requires
            old(self).wf(),
        ensures
            final(self).wf(),
            final(self)@ == (JunctionView {
                send_queue: old(self)@.send_queue.push(
                    fresh_package(
                        PackageType::Bin,
                        recipient_id@,
                        old(self)@.junction_id,
                        0,
                        bytes@,
                    ),
                ),
                ..old(self)@
            }),
    {
        let package = SlowPackage::new_bin_payload(
            recipient_id.clone(),
            self.junction_id.clone(),
            bytes,
        );
        self.queue_for_sending(package);
    }

    /// Queues a Ping for `junction_id`.
    pub fn ping(&mut self, junction_id: &JunctionId)
        requires
            old(self).wf(),
        ensures
            final(self).wf(),
            final(self)@ == (JunctionView {
                send_queue: old(self)@.send_queue.push(
                    fresh_package(
                        PackageType::Ping,
                        junction_id@,
                        old(self)@.junction_id,
                        0,
                        Seq::empty(),
                    ),
                ),
                ..old(self)@
            }),
    {
        let package = SlowPackage::new_ping(junction_id.clone(), self.junction_id.clone());
        self.queue_for_sending(package);
    }

    /// Queues a Pong for `recipient_id`.
    pub fn pong(&mut self, recipient_id: &JunctionId)
        requires
            old(self).wf(),
        ensures
            final(self).wf(),
            final(self)@ == (JunctionView {
                send_queue: old(self)@.send_queue.push(
                    fresh_package(
                        PackageType::Pong,
                        recipient_id@,
                        old(self)@.junction_id,
                        0,
                        Seq::empty(),
                    ),
                ),
                ..old(self)@
            }),
    {
        let package = SlowPackage::new_pong(recipient_id.clone(), self.junction_id.clone());
        self.queue_for_sending(package);
    }

    /// The oldest value waiting for the application, taken off the
    /// queue; `None` where none waits.
    pub fn recv(&mut self) -> (r: Option<JsonPacket>)
        requires
            old(self).wf(),
        ensures
            final(self).wf(),
            old(self)@.received.len() == 0 ==> r is None && final(self)@ == old(self)@,
            old(self)@.received.len() > 0 ==> (r matches Some(packet) && (packet.addr, packet.json)
                == old(self)@.received[0]) && final(self)@ == (JunctionView {
                received: old(self)@.received.drop_first(),
                ..old(self)@
            }),
    {
        let ghost before = self@.received;
        let r = self.received_queue.pop_front();
        proof {
            if before.len() > 0 {
                assert(self@.received =~= before.drop_first());
            } else {
                assert(self@.received =~= before);
            }
        }
        r
    }

    /// Makes the peer at `addr` known without a greeting. The junction's
    /// own address is not taken.
    pub fn seed(&mut self, addr: PeerAddr)
        requires
            old(self).wf(),
        ensures
            final(self).wf(),
            addr == old(self)@.addr ==> final(self)@ == old(self)@,
            addr != old(self)@.addr ==> final(self)@ == (JunctionView {
                known: with_peer(old(self)@.known, addr),
                ..old(self)@
            }),
    {
        if addr == self.addr {
            return ;
        }
        self.note_peer(addr);
    }

    /// The greeting that opens the acquaintance with the peer at `addr`:
    /// a Hello with id 0, to be transmitted to that peer.
    pub fn join(&self, addr: PeerAddr) -> (r: Dispatch)
        ensures
            r@ == (DispatchView {
                package: fresh_package(
                    PackageType::Hello,
                    "none"@,
                    self@.junction_id,
                    0,
                    Seq::empty(),
                ),
                targets: seq![addr],
                fallback: Seq::empty(),
            }),
    {
        let package = SlowPackage::new_hello(0, self.junction_id.clone());
        let targets = vec![addr];
        assert(targets@ =~= seq![addr]);
        Dispatch { package, targets, fallback: Vec::new() }
    }

    /// The best next hop towards `junction_id`, if a route is known.
    pub fn get_best_route(&self, junction_id: &JunctionId) -> (r: Option<PeerAddr>)
        requires
            self.wf(),
        ensures
            r == best_route(self@.routes, junction_id@),
    {
        self.route_table.get_best_route(junction_id)
    }

    /// The address of the junction.
    pub fn get_address(&self) -> (r: PeerAddr)
        ensures
            r == self@.addr,
    {
        self.addr
    }

    /// The name of the junction.
    pub fn get_junction_id(&self) -> (r: &JunctionId)
        ensures
            r@ == self@.junction_id,
    {
        &self.junction_id
    }

    /// How many values wait for the application.
    pub fn get_waiting_package_count(&self) -> (r: usize)
        ensures
            r == self@.received.len(),
    {
        self.received_queue.len()
    }

    /// How many packages wait to be sent.
    pub fn get_queued_package_count(&self) -> (r: usize)
        ensures
            r == self@.send_queue.len(),
    {
        self.send_queue.len()
    }

    /// How many peers are known.
    pub fn get_known_junction_count(&self) -> (r: usize)
        ensures
            r == self@.known.len(),
    {
        self.known_junctions.len()
    }

    /// How many packages were dropped as seen before.
    pub fn get_duplicate_package_count(&self) -> (r: usize)
        ensures
            r == self@.duplicate_package_count,
    {
        self.duplicate_package_count
    }

    /// How many datagrams were dropped as no package.
    pub fn get_rejected_package_count(&self) -> (r: usize)
        ensures
            r == self@.rejected_package_count,
    {
        self.rejected_package_count
    }

    /// How many new packages were received.
    pub fn get_unique_package_count(&self) -> (r: u32)
        ensures
            r == self@.unique_package_count,
    {
        self.unique_package_count
    }

    /// How many Pongs were received.
    pub fn get_pong_counter(&self) -> (r: u32)
        ensures
            r == self@.pong_counter,
    {
        self.pong_counter
    }

    /// How many packages were taken from the send queue.
    pub fn get_sent_package_count(&self) -> (r: u32)
        ensures
            r == self@.sent_package_count,
    {
        self.sent_package_count
    }
}

/// A package that is new to the junction, is for another junction and
/// has hops left is transmitted with one hop more. Where a best next hop
/// is known it goes to that hop alone, and if that transmission fails,
/// to every known peer but the one it came from. Where none is known it
/// goes to every known peer but the one it came from, and there is
/// nothing to fall back to. No peer is named twice.
pub proof fn law_forward_or_broadcast(s: JunctionView, p: PackageView, from: PeerAddr)
    requires
        s.known.no_duplicates(),
        p.package_type != PackageType::Hello.code(),
        is_new(s, p),
        p.recipient != s.junction_id,
        p.hop_count + 1 < MAX_HOPS,
    ensures
        reaction_to(s, p, from) matches ReactionView::Transmit(d) && d.package == (PackageView {
            hop_count: (p.hop_count + 1) as u8,
            ..p
        }) && ({
            let after = after_receive(s, p, from);
            match best_route(after.routes, p.recipient) {
                Some(best) => d.targets == seq![best] && d.fallback.no_duplicates()
                    && forall|a: PeerAddr|
                    d.fallback.contains(a) <==> after.known.contains(a) && a != from,
                None => d.targets.no_duplicates() && d.fallback.len() == 0 && forall|a: PeerAddr|
                    d.targets.contains(a) <==> after.known.contains(a) && a != from,
            }
        }),
{
    let known = with_peer(s.known, from);
    assert(known.no_duplicates()) by {
        if !s.known.contains(from) {
            assert forall|i: int, j: int|
                0 <= i < known.len() && 0 <= j < known.len() && i != j implies known[i]
                != known[j] by {
                if i < s.known.len() && j < s.known.len() {
                    assert(s.known[i] != s.known[j]);
                } else if i < s.known.len() {
                    assert(s.known.contains(s.known[i]));
                } else {
                    assert(s.known.contains(s.known[j]));
                }
            }
        }
    }
    lemma_without(known, Some(from));
}

/// The junction after copies of the package `p` arrived one after the
/// other, each with its own hop count from its own source.
pub open spec fn after_arrivals(s: JunctionView, p: PackageView, arrivals: Seq<(u8, PeerAddr)>) -> JunctionView
    decreases arrivals.len(),
{
    if arrivals.len() == 0 {
        s
    } else {
        after_receive(
            after_arrivals(s, p, arrivals.drop_last()),
            PackageView { hop_count: arrivals.last().0, ..p },
            arrivals.last().1,
        )
    }
}

/// Copies of one new Json package for this junction that arrive over
/// several paths are delivered once: the queue for the application grows
/// by the value of the first copy alone, one package is counted as new
/// and every further copy as a duplicate.
pub proof fn law_fan_in_delivers_once(
    s: JunctionView,
    p: PackageView,
    arrivals: Seq<(u8, PeerAddr)>,
)
    requires
        arrivals.len() >= 1,
        p.package_type == PackageType::Json.code(),
        p.recipient == s.junction_id,
        json_value(p.payload) is Some,
        is_new(s, p),
        s.duplicate_package_count + arrivals.len() - 1 <= usize::MAX,
    ensures
        ({
            let after = after_arrivals(s, p, arrivals);
            &&& after.received == s.received.push((arrivals[0].1, json_value(p.payload).unwrap()))
            &&& after.duplicate_package_count == s.duplicate_package_count + arrivals.len() - 1
            &&& after.unique_package_count == next_u32(s.unique_package_count)
            &&& after.junction_id == s.junction_id
            &&& !is_new(after, p)
            &&& routes_to(after.routes, p.sender).tracker == routes_to(
                s.routes,
                p.sender,
            ).tracker.after(p.package_id as u64)
        }),
    decreases arrivals.len(),
{
    let t = routes_to(s.routes, p.sender).tracker;
    let id = p.package_id as u64;
    lemma_second_offer_is_duplicate(t, id);
    let head = arrivals.drop_last();
    let copy = PackageView { hop_count: arrivals.last().0, ..p };
    let from = arrivals.last().1;
    let before = after_arrivals(s, p, head);
    let after = after_arrivals(s, p, arrivals);
    assert(after == after_receive(before, copy, from));
    if arrivals.len() == 1 {
        assert(head.len() == 0);
        assert(before == s);
        assert(arrivals.last() == arrivals[0]);
        assert(is_new(s, copy));
        assert(after.routes == table_updated(s.routes, p.sender, entry_for(copy, from), p.package_id));
        assert(after.routes.dom().contains(p.sender));
    } else {
        law_fan_in_delivers_once(s, p, head);
        assert(head[0] == arrivals[0]);
        assert(!is_new(before, copy));
        assert(after.routes == table_updated(
            before.routes,
            p.sender,
            entry_for(copy, from),
            p.package_id,
        ));
        assert(after.routes.dom().contains(p.sender));
    }
}

} // verus!
