//! The junction over stream links: what it keeps, and what it decides
//! when bytes arrive on a link or a package is to be sent. The links
//! themselves are kept by whoever drives the junction, under their
//! numbers: each method takes what happened and answers with what is to
//! be done.

use crate::addr::PeerAddr;
use crate::assoc::{
    as_map, distinct_ids, has_id, lemma_absent, lemma_lookup_at, lemma_slot_changed,
    lemma_slot_pushed,
};
use crate::fanout::{lemma_without, without};
use crate::junction::{next_u32, next_usize};
use crate::junction_id::JunctionId;
use crate::package::{parse, PackageView, SlowPackage, MAX_HOPS};
use crate::tcp::tcp_router::{
    best_link, router_updated, stats_of, RouterView, SlowLinkId, SlowTcpRouter,
};
use crate::tracker::{lemma_second_offer_is_duplicate, UpdateResult};
use std::collections::VecDeque;
use vstd::prelude::*;

verus! {

/// What is to be done after bytes arrived on a link.
pub enum TcpReaction {
    /// Nothing.
    Nothing,
    /// A package was queued for the application.
    Delivered,
    /// `data` is to be sent on `link`; if that fails, on each of
    /// `fallback`.
    Forward { data: Vec<u8>, link: SlowLinkId, fallback: Vec<SlowLinkId> },
    /// `data` is to be sent on each of `links`.
    Broadcast { data: Vec<u8>, links: Vec<SlowLinkId> },
}

/// A reaction as plain values.
pub enum TcpReactionView {
    Nothing,
    Delivered,
    Forward { data: Seq<u8>, link: SlowLinkId, fallback: Seq<SlowLinkId> },
    Broadcast { data: Seq<u8>, links: Seq<SlowLinkId> },
}

impl View for TcpReaction {
    type V = TcpReactionView;

    open spec fn view(&self) -> TcpReactionView {
        match self {
            TcpReaction::Nothing => TcpReactionView::Nothing,
            TcpReaction::Delivered => TcpReactionView::Delivered,
            TcpReaction::Forward { data, link, fallback } => TcpReactionView::Forward {
                data: data@,
                link: *link,
                fallback: fallback@,
            },
            TcpReaction::Broadcast { data, links } => TcpReactionView::Broadcast {
                data: data@,
                links: links@,
            },
        }
    }
}

/// Why nothing was sent.
#[derive(Debug, Clone, Copy, PartialEq, Eq, Structural)]
pub enum BroadcastError {
    /// There is no link to send on.
    NotConnected,
    /// Every attempt failed; the number is the place, among the
    /// attempts, of the last one that failed.
    LinkFailed(usize),
    /// No attempt failed, and none sent a byte.
    NothingSent,
}

/// The first count above zero among the attempts that succeeded.
pub open spec fn first_sent(results: Seq<Option<usize>>) -> Option<usize>
    decreases results.len(),
{
    if results.len() == 0 {
        None
    } else {
        match first_sent(results.drop_last()) {
            Some(n) => Some(n),
            None => match results.last() {
                Some(n) => if n > 0 {
                    Some(n)
                } else {
                    None
                },
                None => None,
            },
        }
    }
}

/// The place of the last attempt that failed.
pub open spec fn last_failed(results: Seq<Option<usize>>) -> Option<usize>
    decreases results.len(),
{
    if results.len() == 0 {
        None
    } else if results.last() is None {
        Some((results.len() - 1) as usize)
    } else {
        last_failed(results.drop_last())
    }
}

/// What a broadcast amounts to, given for each attempt the bytes sent or
/// `None` for a failure: the first count above zero, or the reason why
/// there is none.
pub open spec fn outcome_of(results: Seq<Option<usize>>) -> Result<usize, BroadcastError> {
    match first_sent(results) {
        Some(n) => Ok(n),
        None => match last_failed(results) {
            Some(i) => Err(BroadcastError::LinkFailed(i)),
            None => Err(BroadcastError::NothingSent),
        },
    }
}

/// What a broadcast amounts to, given for each attempt the bytes sent or
/// `None` for a failure.
pub fn broadcast_outcome(results: &[Option<usize>]) -> (r: Result<usize, BroadcastError>)
    ensures
        r == outcome_of(results@),
{
    let mut bytes_sent: usize = 0;
    let mut last_error: Option<usize> = None;
    let mut i: usize = 0;
    while i < results.len()
        invariant
            i <= results.len(),
            bytes_sent > 0 ==> first_sent(results@.take(i as int)) == Some(bytes_sent),
            bytes_sent == 0 ==> first_sent(results@.take(i as int)) is None,
            last_error == last_failed(results@.take(i as int)),
        decreases results.len() - i,
    {
        proof {
            let next = results@.take(i + 1);
            assert(next.drop_last() =~= results@.take(i as int));
            assert(next.last() == results@[i as int]);
        }
        match results[i] {
            Some(sent) => {
                if bytes_sent == 0 {
                    bytes_sent = sent;
                }
            },
            None => {
                last_error = Some(i);
            },
        }
        i += 1;
    }
    assert(results@.take(results@.len() as int) =~= results@);
    if bytes_sent > 0 {
        Ok(bytes_sent)
    } else {
        match last_error {
            Some(at) => Err(BroadcastError::LinkFailed(at)),
            None => Err(BroadcastError::NothingSent),
        }
    }
}

/// A junction as plain values.
pub struct TcpJunctionView {
    /// The name of the junction.
    pub junction_id: Seq<char>,
    /// The address the junction listens on.
    pub local_addr: PeerAddr,
    /// The numbers of the links that stand, in the order in which they
    /// were added.
    pub links: Seq<SlowLinkId>,
    /// The addresses registered for junctions.
    pub registry: Map<Seq<char>, PeerAddr>,
    /// The packages waiting for the application.
    pub received: Seq<PackageView>,
    /// The statistics by which links are chosen.
    pub router: RouterView,
    /// Packages received that were new.
    pub received_package_count: usize,
    /// Packages sent.
    pub sent_package_count: usize,
    /// Packages rejected: unreadable, seen before or too old.
    pub rejected_package_count: usize,
}

/// Whether the package in `data`, arriving on a link, is new.
pub open spec fn is_fresh(s: TcpJunctionView, p: PackageView) -> bool {
    stats_of(s.router, p.sender).tracker.verdict(p.package_id as u64) == UpdateResult::Success
}

/// The junction after `data` arrived on the link `link`.
pub open spec fn after_process(s: TcpJunctionView, data: Seq<u8>, link: SlowLinkId) -> TcpJunctionView {
    match parse(data) {
        None => TcpJunctionView {
            rejected_package_count: next_usize(s.rejected_package_count),
            ..s
        },
        Some(p) => {
            let router = router_updated(s.router, p.sender, p.package_id, link);
            if !is_fresh(s, p) {
                TcpJunctionView {
                    router,
                    rejected_package_count: next_usize(s.rejected_package_count),
                    ..s
                }
            } else if p.recipient == s.junction_id {
                TcpJunctionView {
                    router,
                    received_package_count: next_usize(s.received_package_count),
                    received: s.received.push(p),
                    ..s
                }
            } else {
                TcpJunctionView {
                    router,
                    received_package_count: next_usize(s.received_package_count),
                    ..s
                }
            }
        },
    }
}

/// What is to be done after `data` arrived on the link `link`.
pub open spec fn reaction_to(s: TcpJunctionView, data: Seq<u8>, link: SlowLinkId) -> TcpReactionView {
    match parse(data) {
        None => TcpReactionView::Nothing,
        Some(p) => {
            if !is_fresh(s, p) {
                TcpReactionView::Nothing
            } else if p.recipient == s.junction_id {
                TcpReactionView::Delivered
            } else if p.hop_count + 1 >= MAX_HOPS {
                TcpReactionView::Nothing
            } else {
                let relayed = (PackageView { hop_count: (p.hop_count + 1) as u8, ..p }).wire(
                    p.package_id,
                );
                let others = without(s.links, Some(link));
                match best_link(
                    router_updated(s.router, p.sender, p.package_id, link),
                    p.recipient,
                ) {
                    Some(best) => if s.links.contains(best) {
                        TcpReactionView::Forward { data: relayed, link: best, fallback: others }
                    } else {
                        TcpReactionView::Broadcast { data: relayed, links: others }
                    },
                    None => TcpReactionView::Broadcast { data: relayed, links: others },
                }
            }
        },
    }
}

/// The id under which the junction sends its next package: one above
/// the count of packages sent, cut to 32 bits.
pub open spec fn next_package_id(s: TcpJunctionView) -> u32 {
    next_u32((s.sent_package_count as u64 % 0x1_0000_0000) as u32)
}

/// One junction with the address registered for it.
pub struct RegistryEntry {
    id: JunctionId,
    addr: PeerAddr,
}

/// What a junction keeps: its name and address, the numbers of its
/// links, the addresses registered, the queue for the application, the
/// statistics of its links and its counters.
pub struct TcpJunctionState {
    links: Vec<SlowLinkId>,
    local_addr: PeerAddr,
    junction_id: JunctionId,
    junction_map: Vec<RegistryEntry>,
    received_package_count: usize,
    sent_package_count: usize,
    rejected_package_count: usize,
    received_packages: VecDeque<SlowPackage>,
    router: SlowTcpRouter,
}

impl TcpJunctionState {
    /// The registry in the order in which junctions were first
    /// registered.
    pub closed spec fn registry_slots(self) -> Seq<(Seq<char>, PeerAddr)> {
        Seq::new(
            self.junction_map@.len(),
            |i: int| (self.junction_map@[i].id@, self.junction_map@[i].addr),
        )
    }

    /// What `new` establishes and every method keeps: no link and no
    /// registered junction is held twice, and the router is in order.
    pub closed spec fn wf(self) -> bool {
        &&& self.links@.no_duplicates()
        &&& distinct_ids(self.registry_slots())
        &&& self.router.wf()
    }
}

impl View for TcpJunctionState {
    type V = TcpJunctionView;

    closed spec fn view(&self) -> TcpJunctionView {
        TcpJunctionView {
            junction_id: self.junction_id@,
            local_addr: self.local_addr,
            links: self.links@,
            registry: as_map(self.registry_slots()),
            received: Seq::new(
                self.received_packages@.len(),
                |i: int| self.received_packages@[i]@,
            ),
            router: self.router@,
            received_package_count: self.received_package_count,
            sent_package_count: self.sent_package_count,
            rejected_package_count: self.rejected_package_count,
        }
    }
}

fn bump(count: usize) -> (r: usize)
    ensures
        r == next_usize(count),
{
    if count == usize::MAX {
        0
    } else {
        count + 1
    }
}

impl TcpJunctionState {
    /// A well-formed junction holds no link twice.
    pub proof fn lemma_links_distinct(self)
        requires
            self.wf(),
        ensures
            self@.links.no_duplicates(),
    {
    }

    /// A junction without links, with an empty queue and all counters at
    /// zero.
    pub fn new(addr: PeerAddr, junction_id: JunctionId) -> (s: TcpJunctionState)
        ensures
            s.wf(),
            s@ == (TcpJunctionView {
                junction_id: junction_id@,
                local_addr: addr,
                links: Seq::empty(),
                registry: Map::empty(),
                received: Seq::empty(),
                router: Map::empty(),
                received_package_count: 0,
                sent_package_count: 0,
                rejected_package_count: 0,
            }),
    {
        let s = TcpJunctionState {
            links: Vec::new(),
            local_addr: addr,
            junction_id,
            junction_map: Vec::new(),
            received_package_count: 0,
            sent_package_count: 0,
            rejected_package_count: 0,
            received_packages: VecDeque::new(),
            router: SlowTcpRouter::new(),
        };
        assert(s@.received =~= Seq::empty());
        assert(s@.registry =~= Map::empty());
        s
    }

    fn has_link(&self, link_id: SlowLinkId) -> (r: bool)
        ensures
            r == self@.links.contains(link_id),
    {
        let mut i: usize = 0;
        while i < self.links.len()
            invariant
                i <= self.links.len(),
                forall|k: int| 0 <= k < i ==> self.links@[k] != link_id,
            decreases self.links.len() - i,
        {
            if self.links[i] == link_id {
                return true;
            }
            i += 1;
        }
        false
    }

    /// The links to send on when all but `exclude_link_id` are to be
    /// reached, in the order in which they were added.
    pub fn broadcast_links(&self, exclude_link_id: Option<SlowLinkId>) -> (r: Vec<SlowLinkId>)
        ensures
            r@ == without(self@.links, exclude_link_id),
    {
        let mut out: Vec<SlowLinkId> = Vec::new();
        let mut i: usize = 0;
        while i < self.links.len()
            invariant
                i <= self.links.len(),
                out@ == without(self.links@.take(i as int), exclude_link_id),
            decreases self.links.len() - i,
        {
            let link = self.links[i];
            proof {
                let next = self.links@.take(i + 1);
                assert(next.drop_last() =~= self.links@.take(i as int));
                assert(next.last() == link);
            }
            let skip = match exclude_link_id {
                Some(e) => e == link,
                None => false,
            };
            if !skip {
                out.push(link);
            }
            i += 1;
        }
        assert(self.links@.take(self.links@.len() as int) =~= self.links@);
        out
    }

    /// Takes note of a new link. A number that is held already is not
    /// taken again.
    pub fn add_link(&mut self, link_id: SlowLinkId)
        requires
            old(self).wf(),
        ensures
            final(self).wf(),
            final(self)@ == (TcpJunctionView {
                links: if old(self)@.links.contains(link_id) {
                    old(self)@.links
                } else {
                    old(self)@.links.push(link_id)
                },
                ..old(self)@
            }),
    {
        if !self.has_link(link_id) {
            self.links.push(link_id);
        }
    }

    /// Forgets a link.
    pub fn remove_link(&mut self, link_id: SlowLinkId)
        requires
            old(self).wf(),
        ensures
            final(self).wf(),
            final(self)@ == (TcpJunctionView {
                links: without(old(self)@.links, Some(link_id)),
                ..old(self)@
            }),
    {
        let kept = self.broadcast_links(Some(link_id));
        proof {
            lemma_without(self.links@, Some(link_id));
        }
        self.links = kept;
    }

    /// How many links stand.
    pub fn link_count(&self) -> (r: usize)
        ensures
            r == self@.links.len(),
    {
        self.links.len()
    }

    /// Takes the bytes that arrived on `link_id`. Bytes that are no
    /// package, and packages seen before or too old, are counted as
    /// rejected. A new package is counted as received, and then queued
    /// for the application if it is for this junction, or else sent on
    /// with one hop more: on the link that brought the most new packages
    /// of its recipient, if that link stands, and else on every link but
    /// the one it came on. A package that would reach 128 hops is
    /// dropped.
    pub fn process(&mut self, data: &[u8], link_id: SlowLinkId) -> (r: TcpReaction)
        requires
            old(self).wf(),
        ensures
            final(self).wf(),
            final(self)@ == after_process(old(self)@, data@, link_id),
            r@ == reaction_to(old(self)@, data@, link_id),
    {
        let package = match SlowPackage::unpack(data) {
            Some(package) => package,
            None => {
                self.rejected_package_count = bump(self.rejected_package_count);
                return TcpReaction::Nothing;
            },
        };
        match self.router.update(&package, link_id) {
            UpdateResult::Success => {},
            _ => {
                self.rejected_package_count = bump(self.rejected_package_count);
                return TcpReaction::Nothing;
            },
        }
        let best = self.router.get_best_link(package.recipient_id());
        self.received_package_count = bump(self.received_package_count);
        if *package.recipient_id() == self.junction_id {
            let ghost before = self@.received;
            let ghost p = package@;
            self.received_packages.push_back(package);
            assert(self@.received =~= before.push(p));
            return TcpReaction::Delivered;
        }
        let mut package = package;
        if package.hop_count() >= MAX_HOPS - 1 {
            return TcpReaction::Nothing;
        }
        let _ = package.increment_hops();
        let relayed = package.pack(package.package_id());
        let others = self.broadcast_links(Some(link_id));
        match best {
            Some(link) => {
                if self.has_link(link) {
                    TcpReaction::Forward { data: relayed, link, fallback: others }
                } else {
                    TcpReaction::Broadcast { data: relayed, links: others }
                }
            },
            None => TcpReaction::Broadcast { data: relayed, links: others },
        }
    }

    /// The bytes to send for `package`: its wire form under the id that
    /// follows the count of packages sent.
    pub fn prepare_package(&self, package: &SlowPackage) -> (r: Vec<u8>)
        ensures
            r@ == package@.wire(next_package_id(self@)),
    {
        let sent: u32 = (self.sent_package_count as u64 % 0x1_0000_0000) as u32;
        let package_id = if sent == u32::MAX {
            0
        } else {
            sent + 1
        };
        package.pack(package_id)
    }

    /// Counts one package as sent.
    pub fn note_sent(&mut self)
        requires
            old(self).wf(),
        ensures
            final(self).wf(),
            final(self)@ == (TcpJunctionView {
                sent_package_count: next_usize(old(self)@.sent_package_count),
                ..old(self)@
            }),
    {
        self.sent_package_count = bump(self.sent_package_count);
    }

    /// Takes the results of sending a package of this junction on every
    /// link, for each link the bytes sent or `None` for a failure, and
    /// says what the send amounts to. With no link there is nothing to
    /// send on; a send that got through on some link is counted.
    pub fn finish_send(&mut self, results: &[Option<usize>]) -> (r: Result<usize, BroadcastError>)
        requires
            old(self).wf(),
        ensures
            final(self).wf(),
            r == (if old(self)@.links.len() == 0 {
                Err::<usize, BroadcastError>(BroadcastError::NotConnected)
            } else {
                outcome_of(results@)
            }),
            final(self)@ == (TcpJunctionView {
                sent_package_count: if r is Ok {
                    next_usize(old(self)@.sent_package_count)
                } else {
                    old(self)@.sent_package_count
                },
                ..old(self)@
            }),
    {
        if self.links.len() == 0 {
            return Err(BroadcastError::NotConnected);
        }
        let result = broadcast_outcome(results);
        if result.is_ok() {
            self.sent_package_count = bump(self.sent_package_count);
        }
        result
    }

    fn registry_position(&self, junction_id: &JunctionId) -> (r: Option<usize>)
        ensures
            match r {
                Some(i) => i < self.registry_slots().len() && self.registry_slots()[i as int].0
                    == junction_id@,
                None => !has_id(self.registry_slots(), junction_id@),
            },
    {
        let mut i: usize = 0;
        while i < self.junction_map.len()
            invariant
                i <= self.junction_map.len(),
                self.registry_slots().len() == self.junction_map@.len(),
                forall|k: int| 0 <= k < i ==> self.registry_slots()[k].0 != junction_id@,
            decreases self.junction_map.len() - i,
        {
            if self.junction_map[i].id == *junction_id {
                return Some(i);
            }
            i += 1;
        }
        None
    }

    /// Registers `addr` as the address of `junction_id`, in the place of
    /// any address registered for it before.
    pub fn register_junction(&mut self, junction_id: JunctionId, addr: PeerAddr)
        requires
            old(self).wf(),
        ensures
            final(self).wf(),
            final(self)@ == (TcpJunctionView {
                registry: old(self)@.registry.insert(junction_id@, addr),
                ..old(self)@
            }),
    {
        let ghost before = self.registry_slots();
        match self.registry_position(&junction_id) {
            Some(i) => {
                let entry = RegistryEntry { id: junction_id, addr };
                proof {
                    let after = before.update(i as int, (entry.id@, entry.addr));
                    lemma_slot_changed(before, after, i as int);
                }
                self.junction_map.set(i, entry);
                assert(self.registry_slots() =~= before.update(i as int, (junction_id@, addr)));
            },
            None => {
                let entry = RegistryEntry { id: junction_id, addr };
                proof {
                    lemma_slot_pushed(before, entry.id@, entry.addr);
                }
                self.junction_map.push(entry);
                assert(self.registry_slots() =~= before.push((junction_id@, addr)));
            },
        }
    }

    /// The address registered for `junction_id`, if one is.
    pub fn get_junction_addr(&self, junction_id: &JunctionId) -> (r: Option<PeerAddr>)
        requires
            self.wf(),
        ensures
            r == (if self@.registry.dom().contains(junction_id@) {
                Some(self@.registry[junction_id@])
            } else {
                None
            }),
    {
        match self.registry_position(junction_id) {
            Some(i) => {
                proof {
                    lemma_lookup_at(self.registry_slots(), i as int);
                }
                Some(self.junction_map[i].addr)
            },
            None => {
                proof {
                    lemma_absent(self.registry_slots(), junction_id@);
                }
                None
            },
        }
    }

    /// The oldest package waiting for the application, taken off the
    /// queue; `None` where none waits.
    pub fn receive_package(&mut self) -> (r: Option<SlowPackage>)
        requires
            old(self).wf(),
        ensures
            final(self).wf(),
            old(self)@.received.len() == 0 ==> r is None && final(self)@ == old(self)@,
            old(self)@.received.len() > 0 ==> (r matches Some(package) && package@
                == old(self)@.received[0]) && final(self)@ == (TcpJunctionView {
                received: old(self)@.received.drop_first(),
                ..old(self)@
            }),
    {
        let ghost before = self@.received;
        let r = self.received_packages.pop_front();
        proof {
            if before.len() > 0 {
                assert(self@.received =~= before.drop_first());
            } else {
                assert(self@.received =~= before);
            }
        }
        r
    }

    /// How many packages wait for the application.
    pub fn waiting_package_count(&self) -> (r: usize)
        ensures
            r == self@.received.len(),
    {
        self.received_packages.len()
    }

    /// The address the junction listens on.
    pub fn local_addr(&self) -> (r: PeerAddr)
        ensures
            r == self@.local_addr,
    {
        self.local_addr
    }

    /// The name of the junction.
    pub fn junction_id(&self) -> (r: &JunctionId)
        ensures
            r@ == self@.junction_id,
    {
        &self.junction_id
    }

    /// How many new packages were received.
    pub fn received_package_count(&self) -> (r: usize)
        ensures
            r == self@.received_package_count,
    {
        self.received_package_count
    }

    /// How many packages were sent.
    pub fn sent_package_count(&self) -> (r: usize)
        ensures
            r == self@.sent_package_count,
    {
        self.sent_package_count
    }

    /// How many packages were rejected.
    pub fn rejected_package_count(&self) -> (r: usize)
        ensures
            r == self@.rejected_package_count,
    {
        self.rejected_package_count
    }
}

/// A readable package that is new, is for another junction and has hops
/// left is sent on with one hop more: on one link alone, with every
/// other link but the one it came on to fall back to, or on every link
/// but the one it came on, on none of them twice.
pub proof fn law_forward_or_broadcast(s: TcpJunctionView, data: Seq<u8>, link: SlowLinkId)
    requires
        s.links.no_duplicates(),
        parse(data) matches Some(p) && is_fresh(s, p) && p.recipient != s.junction_id
            && p.hop_count + 1 < MAX_HOPS,
    ensures
        ({
            let p = parse(data).unwrap();
            let relayed = (PackageView { hop_count: (p.hop_count + 1) as u8, ..p }).wire(
                p.package_id,
            );
            match reaction_to(s, data, link) {
                TcpReactionView::Forward { data: sent, link: chosen, fallback } => sent == relayed
                    && s.links.contains(chosen) && fallback.no_duplicates() && forall|l: SlowLinkId|
                    fallback.contains(l) <==> s.links.contains(l) && l != link,
                TcpReactionView::Broadcast { data: sent, links } => sent == relayed
                    && links.no_duplicates() && forall|l: SlowLinkId|
                    links.contains(l) <==> s.links.contains(l) && l != link,
                _ => false,
            }
        }),
{
    lemma_without(s.links, Some(link));
}

/// The junction after the bytes `data` arrived once on each of `links`
/// in turn.
pub open spec fn after_copies(s: TcpJunctionView, data: Seq<u8>, links: Seq<SlowLinkId>) -> TcpJunctionView
    decreases links.len(),
{
    if links.len() == 0 {
        s
    } else {
        after_process(after_copies(s, data, links.drop_last()), data, links.last())
    }
}

/// Copies of one new package for this junction that arrive on several
/// links are delivered once: the queue for the application grows by the
/// package alone, one package is counted as received and every further
/// copy as rejected.
pub proof fn law_fan_in_delivers_once(s: TcpJunctionView, data: Seq<u8>, links: Seq<SlowLinkId>)
    requires
        links.len() >= 1,
        parse(data) matches Some(p) && is_fresh(s, p) && p.recipient == s.junction_id,
        s.rejected_package_count + links.len() - 1 <= usize::MAX,
    ensures
        ({
            let p = parse(data).unwrap();
            let after = after_copies(s, data, links);
            &&& after.received == s.received.push(p)
            &&& after.rejected_package_count == s.rejected_package_count + links.len() - 1
            &&& after.received_package_count == next_usize(s.received_package_count)
            &&& after.junction_id == s.junction_id
            &&& !is_fresh(after, p)
            &&& stats_of(after.router, p.sender).tracker == stats_of(
                s.router,
                p.sender,
            ).tracker.after(p.package_id as u64)
        }),
    decreases links.len(),
{
    let p = parse(data).unwrap();
    let t = stats_of(s.router, p.sender).tracker;
    let id = p.package_id as u64;
    lemma_second_offer_is_duplicate(t, id);
    let head = links.drop_last();
    let before = after_copies(s, data, head);
    let after = after_copies(s, data, links);
    assert(after == after_process(before, data, links.last()));
    if links.len() == 1 {
        assert(head.len() == 0);
        assert(before == s);
        assert(after.router == router_updated(s.router, p.sender, p.package_id, links.last()));
        assert(after.router.dom().contains(p.sender));
    } else {
        law_fan_in_delivers_once(s, data, head);
        assert(after.router == router_updated(
            before.router,
            p.sender,
            p.package_id,
            links.last(),
        ));
        assert(after.router.dom().contains(p.sender));
    }
}

} // verus!
