//! Per-sender statistics of the links that packages arrived on, used to
//! choose the link to forward on.

use crate::assoc::{
    as_map, distinct_ids, has_id, lemma_absent, lemma_lookup_at, lemma_slot_changed,
    lemma_slot_pushed, lemma_slot_removed,
};
use crate::junction_id::JunctionId;
use crate::package::SlowPackage;
use crate::tracker::{PacketTracker, UpdateResult};
use vstd::prelude::*;

verus! {

/// The number of a link, unique among the links of a process.
pub type SlowLinkId = u64;

/// How many packages of one sender a link brought.
#[derive(Debug, Clone, Copy, PartialEq, Eq, Structural)]
pub struct SlowTcpLinkStats {
    /// Packages that were new.
    pub valid_packet_count: u64,
    /// Packages that were duplicates or too old.
    pub invalid_packet_count: u64,
}

/// A count raised by one; it stays at the largest number once there.
pub open spec fn bumped(count: u64) -> u64 {
    if count < u64::MAX {
        (count + 1) as u64
    } else {
        count
    }
}

impl SlowTcpLinkStats {
    /// Statistics with both counts at zero.
    pub fn new() -> (s: SlowTcpLinkStats)
        ensures
            s == (SlowTcpLinkStats { valid_packet_count: 0, invalid_packet_count: 0 }),
    {
        SlowTcpLinkStats { valid_packet_count: 0, invalid_packet_count: 0 }
    }

    /// The statistics after one more package, new or not.
    pub open spec fn counted(self, valid: bool) -> SlowTcpLinkStats {
        if valid {
            SlowTcpLinkStats { valid_packet_count: bumped(self.valid_packet_count), ..self }
        } else {
            SlowTcpLinkStats { invalid_packet_count: bumped(self.invalid_packet_count), ..self }
        }
    }

    fn count(self, valid: bool) -> (r: SlowTcpLinkStats)
        ensures
            r == self.counted(valid),
    {
        if valid {
            let n = if self.valid_packet_count < u64::MAX {
                self.valid_packet_count + 1
            } else {
                self.valid_packet_count
            };
            SlowTcpLinkStats { valid_packet_count: n, ..self }
        } else {
            let n = if self.invalid_packet_count < u64::MAX {
                self.invalid_packet_count + 1
            } else {
                self.invalid_packet_count
            };
            SlowTcpLinkStats { invalid_packet_count: n, ..self }
        }
    }
}

/// A link with its statistics.
#[derive(Debug, Clone, Copy, PartialEq, Eq, Structural)]
pub struct LinkStatsEntry {
    pub link_id: SlowLinkId,
    pub stats: SlowTcpLinkStats,
}

/// Whether some entry is for the link `link_id`.
pub open spec fn has_link(links: Seq<LinkStatsEntry>, link_id: SlowLinkId) -> bool {
    exists|i: int| 0 <= i < links.len() && links[i].link_id == link_id
}

/// Whether no two entries are for the same link.
pub open spec fn distinct_links(links: Seq<LinkStatsEntry>) -> bool {
    forall|i: int, j: int| 0 <= i < j < links.len() ==> links[i].link_id != links[j].link_id
}

/// The entries after one more package arrived on `link_id`: its entry is
/// counted up where there is one, else a new entry is added at the end.
pub open spec fn tallied(links: Seq<LinkStatsEntry>, link_id: SlowLinkId, valid: bool) -> Seq<
    LinkStatsEntry,
> {
    if has_link(links, link_id) {
        let i = choose|i: int| 0 <= i < links.len() && links[i].link_id == link_id;
        links.update(i, LinkStatsEntry { link_id, stats: links[i].stats.counted(valid) })
    } else {
        links.push(
            LinkStatsEntry {
                link_id,
                stats: (SlowTcpLinkStats { valid_packet_count: 0, invalid_packet_count: 0 }).counted(
                    valid,
                ),
            },
        )
    }
}

/// Whether entry `i` brought the most new packages, and is the first
/// that did.
pub open spec fn is_busiest(links: Seq<LinkStatsEntry>, i: int) -> bool {
    &&& 0 <= i < links.len()
    &&& forall|j: int|
        0 <= j < links.len() ==> links[i].stats.valid_packet_count >= (
        #[trigger] links[j]).stats.valid_packet_count
    &&& forall|j: int|
        0 <= j < i ==> links[i].stats.valid_packet_count > (
        #[trigger] links[j]).stats.valid_packet_count
}

/// The link that brought the most new packages, the earliest recorded
/// among equals; `None` where there are no entries.
pub open spec fn busiest_link(links: Seq<LinkStatsEntry>) -> Option<SlowLinkId> {
    if links.len() == 0 {
        None
    } else {
        Some(links[choose|i: int| is_busiest(links, i)].link_id)
    }
}

/// Two entries are busiest only if they are the same entry.
pub proof fn lemma_busiest_is_unique(links: Seq<LinkStatsEntry>, i: int, j: int)
    requires
        is_busiest(links, i),
        is_busiest(links, j),
    ensures
        i == j,
{
    if i < j {
        assert(links[j].stats.valid_packet_count > links[i].stats.valid_packet_count);
        assert(links[i].stats.valid_packet_count >= links[j].stats.valid_packet_count);
    } else if j < i {
        assert(links[i].stats.valid_packet_count > links[j].stats.valid_packet_count);
        assert(links[j].stats.valid_packet_count >= links[i].stats.valid_packet_count);
    }
}

/// The statistics of one sender as plain values.
pub struct RouteStatsView {
    /// The links in the order in which they first brought a package.
    pub links: Seq<LinkStatsEntry>,
    /// Which packages of the sender were seen.
    pub tracker: PacketTracker,
}

impl RouteStatsView {
    /// The statistics of a sender of which nothing is known yet.
    pub open spec fn fresh() -> RouteStatsView {
        RouteStatsView { links: Seq::empty(), tracker: PacketTracker::fresh() }
    }

    /// The statistics after a package with id `package_id` arrived on
    /// `link_id`.
    pub open spec fn recorded(self, package_id: u32, link_id: SlowLinkId) -> RouteStatsView {
        RouteStatsView {
            links: tallied(
                self.links,
                link_id,
                self.tracker.verdict(package_id as u64) == UpdateResult::Success,
            ),
            tracker: self.tracker.after(package_id as u64),
        }
    }
}

/// The statistics of one sender.
pub struct SlowTcpRouteStats {
    link_stats: Vec<LinkStatsEntry>,
    packet_tracker: PacketTracker,
}

impl View for SlowTcpRouteStats {
    type V = RouteStatsView;

    closed spec fn view(&self) -> RouteStatsView {
        RouteStatsView { links: self.link_stats@, tracker: self.packet_tracker }
    }
}

impl SlowTcpRouteStats {
    /// What `new` establishes and every method keeps: no link has two
    /// entries.
    pub closed spec fn wf(self) -> bool {
        distinct_links(self.link_stats@)
    }

    /// Statistics of a sender of which nothing is known yet.
    pub fn new() -> (r: SlowTcpRouteStats)
        ensures
            r@ == RouteStatsView::fresh(),
            r.wf(),
    {
        SlowTcpRouteStats { link_stats: Vec::new(), packet_tracker: PacketTracker::new() }
    }

    /// The link that brought the most new packages of the sender, the
    /// earliest recorded among equals; `None` where none brought any.
    pub fn get_best_link(&self) -> (r: Option<SlowLinkId>)
        ensures
            r == busiest_link(self@.links),
            r is None <==> self@.links.len() == 0,
            r matches Some(l) ==> exists|i: int|
                is_busiest(self@.links, i) && self@.links[i].link_id == l,
    {
        if self.link_stats.len() == 0 {
            return None;
        }
        let mut best: usize = 0;
        let mut i: usize = 1;
        while i < self.link_stats.len()
            invariant
                1 <= i <= self.link_stats.len(),
                best < i,
                forall|j: int|
                    0 <= j < i ==> self.link_stats@[best as int].stats.valid_packet_count >= (
                    #[trigger] self.link_stats@[j]).stats.valid_packet_count,
                forall|j: int|
                    0 <= j < best ==> self.link_stats@[best as int].stats.valid_packet_count > (
                    #[trigger] self.link_stats@[j]).stats.valid_packet_count,
            decreases self.link_stats.len() - i,
        {
            if self.link_stats[i].stats.valid_packet_count
                > self.link_stats[best].stats.valid_packet_count {
                best = i;
            }
            i += 1;
        }
        proof {
            assert(is_busiest(self@.links, best as int));
            let c = choose|k: int| is_busiest(self@.links, k);
            lemma_busiest_is_unique(self@.links, c, best as int);
        }
        Some(self.link_stats[best].link_id)
    }

    fn position(&self, link_id: SlowLinkId) -> (r: Option<usize>)
        ensures
            match r {
                Some(i) => i < self@.links.len() && self@.links[i as int].link_id == link_id,
                None => !has_link(self@.links, link_id),
            },
    {
        let mut i: usize = 0;
        while i < self.link_stats.len()
            invariant
                i <= self.link_stats.len(),
                forall|k: int| 0 <= k < i ==> self.link_stats@[k].link_id != link_id,
            decreases self.link_stats.len() - i,
        {
            if self.link_stats[i].link_id == link_id {
                return Some(i);
            }
            i += 1;
        }
        None
    }

    /// Offers the id of `package` to the sender's tracker and counts the
    /// package for `link_id`, as new or not. Returns the tracker's answer.
    pub fn update(&mut self, package: &SlowPackage, link_id: SlowLinkId) -> (r: UpdateResult)
        requires
            old(self).wf(),
        ensures
            final(self).wf(),
            r == old(self)@.tracker.verdict(package@.package_id as u64),
            final(self)@ == old(self)@.recorded(package@.package_id, link_id),
    {
        let result = self.packet_tracker.update(package.package_id() as u64);
        let valid = result == UpdateResult::Success;
        match self.position(link_id) {
            Some(i) => {
                let ghost before = self.link_stats@;
                proof {
                    let c = choose|k: int| 0 <= k < before.len() && before[k].link_id == link_id;
                    assert(c == i);
                }
                let stats = self.link_stats[i].stats.count(valid);
                self.link_stats.set(i, LinkStatsEntry { link_id, stats });
            },
            None => {
                let stats = SlowTcpLinkStats::new().count(valid);
                self.link_stats.push(LinkStatsEntry { link_id, stats });
            },
        }
        result
    }
}

/// One sender with its statistics.
pub struct RouterEntry {
    id: JunctionId,
    stats: SlowTcpRouteStats,
}

/// The statistics of a router as plain values: for each sender heard of,
/// its statistics.
pub type RouterView = Map<Seq<char>, RouteStatsView>;

/// The statistics recorded for the sender `id`, or those of a sender of
/// which nothing is known.
pub open spec fn stats_of(router: RouterView, id: Seq<char>) -> RouteStatsView {
    if router.dom().contains(id) {
        router[id]
    } else {
        RouteStatsView::fresh()
    }
}

/// The link to forward on towards the junction `id`: the one that
/// brought the most new packages of it; `None` where none did.
pub open spec fn best_link(router: RouterView, id: Seq<char>) -> Option<SlowLinkId> {
    if router.dom().contains(id) {
        busiest_link(router[id].links)
    } else {
        None
    }
}

/// The router after a package of `sender` with id `package_id` arrived
/// on `link_id`.
pub open spec fn router_updated(
    router: RouterView,
    sender: Seq<char>,
    package_id: u32,
    link_id: SlowLinkId,
) -> RouterView {
    router.insert(sender, stats_of(router, sender).recorded(package_id, link_id))
}

/// Statistics for every sender heard of.
pub struct SlowTcpRouter {
    route_stats: Vec<RouterEntry>,
}

impl SlowTcpRouter {
    /// The slots of the router in the order in which senders were first
    /// heard of.
    pub closed spec fn slots(self) -> Seq<(Seq<char>, RouteStatsView)> {
        Seq::new(
            self.route_stats@.len(),
            |i: int| (self.route_stats@[i].id@, self.route_stats@[i].stats@),
        )
    }

    /// What `new` establishes and every method keeps: no sender has two
    /// slots, and no sender's statistics hold a link twice.
    pub closed spec fn wf(self) -> bool {
        &&& distinct_ids(self.slots())
        &&& forall|i: int| 0 <= i < self.route_stats@.len() ==> self.route_stats@[i].stats.wf()
    }
}

impl View for SlowTcpRouter {
    type V = RouterView;

    closed spec fn view(&self) -> RouterView {
        as_map(self.slots())
    }
}

impl SlowTcpRouter {
    /// A router that has heard of no sender.
    pub fn new() -> (r: SlowTcpRouter)
        ensures
            r@ == Map::<Seq<char>, RouteStatsView>::empty(),
            r.wf(),
    {
        let r = SlowTcpRouter { route_stats: Vec::new() };
        assert(r@ =~= Map::<Seq<char>, RouteStatsView>::empty());
        r
    }

    fn position(&self, junction_id: &JunctionId) -> (r: Option<usize>)
        ensures
            match r {
                Some(i) => i < self.slots().len() && self.slots()[i as int].0 == junction_id@,
                None => !has_id(self.slots(), junction_id@),
            },
    {
        let mut i: usize = 0;
        while i < self.route_stats.len()
            invariant
                i <= self.route_stats.len(),
                self.slots().len() == self.route_stats@.len(),
                forall|k: int| 0 <= k < i ==> self.slots()[k].0 != junction_id@,
            decreases self.route_stats.len() - i,
        {
            if self.route_stats[i].id == *junction_id {
                return Some(i);
            }
            i += 1;
        }
        None
    }

    /// Records that `package` arrived on `link_id`: its id is offered to
    /// its sender's tracker and the package is counted for the link.
    /// Returns the tracker's answer.
    pub fn update(&mut self, package: &SlowPackage, link_id: SlowLinkId) -> (r: UpdateResult)
        requires
            old(self).wf(),
        ensures
            final(self).wf(),
            r == stats_of(old(self)@, package@.sender).tracker.verdict(package@.package_id as u64),
            final(self)@ == router_updated(
                old(self)@,
                package@.sender,
                package@.package_id,
                link_id,
            ),
    {
        let ghost before = self.slots();
        match self.position(package.sender_id()) {
            Some(i) => {
                proof {
                    lemma_lookup_at(before, i as int);
                    lemma_slot_removed(before, i as int);
                    assert(self.slots().remove(i as int) =~= before.remove(i as int));
                }
                let mut slot = self.route_stats.remove(i);
                let ghost mid = self.slots();
                assert(mid =~= before.remove(i as int));
                let r = slot.stats.update(package, link_id);
                proof {
                    let after = mid.insert(i as int, (slot.id@, slot.stats@));
                    assert(after.len() == before.len());
                    assert(forall|k: int|
                        0 <= k < before.len() && k != i ==> after[k] == before[k]);
                    lemma_slot_changed(before, after, i as int);
                }
                self.route_stats.insert(i, slot);
                assert(self.slots() =~= mid.insert(i as int, (slot.id@, slot.stats@)));
                r
            },
            None => {
                let mut stats = SlowTcpRouteStats::new();
                let r = stats.update(package, link_id);
                let slot = RouterEntry { id: package.sender_id().clone(), stats };
                proof {
                    lemma_slot_pushed(before, slot.id@, slot.stats@);
                    lemma_absent(before, package@.sender);
                }
                self.route_stats.push(slot);
                assert(self.slots() =~= before.push((slot.id@, slot.stats@)));
                r
            },
        }
    }

    /// The link to forward on towards `junction_id`: the one that brought
    /// the most new packages of it; `None` where none did.
    pub fn get_best_link(&self, junction_id: &JunctionId) -> (r: Option<SlowLinkId>)
        requires
            self.wf(),
        ensures
            r == best_link(self@, junction_id@),
    {
        match self.position(junction_id) {
            Some(i) => {
                proof {
                    lemma_lookup_at(self.slots(), i as int);
                }
                self.route_stats[i].stats.get_best_link()
            },
            None => None,
        }
    }
}

} // verus!
