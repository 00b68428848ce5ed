//! The route table: for each junction heard of, the next hops through
//! which its packages arrived, and which of its packages were seen.

use crate::addr::PeerAddr;
use crate::assoc::{
    as_map, distinct_ids, has_id, lemma_absent, lemma_lookup_at, lemma_slot_changed,
    lemma_slot_pushed, lemma_slot_removed,
};
use crate::junction_id::JunctionId;
use crate::tracker::{PacketTracker, UpdateResult};
use vstd::prelude::*;

verus! {

/// Which packages of one junction were seen: a `PacketTracker` over the
/// junction's package ids, with its window of 64.
pub struct RoutePackageInfo {
    tracker: PacketTracker,
}

impl View for RoutePackageInfo {
    type V = PacketTracker;

    closed spec fn view(&self) -> PacketTracker {
        self.tracker
    }
}

impl RoutePackageInfo {
    /// A record of a junction of which no package was seen.
    pub fn new() -> (r: RoutePackageInfo)
        ensures
            r@ == PacketTracker::fresh(),
    {
        RoutePackageInfo { tracker: PacketTracker::new() }
    }

    /// Offers `package_id`; `true` where it is new, and then recorded. A
    /// package seen before, or more than 63 below the greatest id seen,
    /// is answered `false` and changes nothing.
    pub fn update(&mut self, package_id: u32) -> (r: bool)
        ensures
            r == (old(self)@.verdict(package_id as u64) == UpdateResult::Success),
            final(self)@ == old(self)@.after(package_id as u64),
    {
        let result = self.tracker.update(package_id as u64);
        result == UpdateResult::Success
    }
}

/// What is known of one next hop: how many relays a package had passed
/// when it arrived through it, and a time, held as the bits of a 32-bit
/// floating-point number.
#[derive(Debug, Clone, Copy, PartialEq, Eq, Structural)]
pub struct RouteInfo {
    /// The number of hops to reach the destination.
    pub hops: u8,
    /// The time taken to reach the destination, as the bits of an `f32`.
    pub time_bits: u32,
}

/// A next hop with what is known of it.
#[derive(Debug, Clone, Copy, PartialEq, Eq, Structural)]
pub struct RouteEntry {
    pub addr: PeerAddr,
    pub info: RouteInfo,
}

/// Whether some entry is for `addr`.
pub open spec fn has_addr(entries: Seq<RouteEntry>, addr: PeerAddr) -> bool {
    exists|i: int| 0 <= i < entries.len() && entries[i].addr == addr
}

/// Whether no two entries are for the same address.
pub open spec fn distinct_addrs(entries: Seq<RouteEntry>) -> bool {
    forall|i: int, j: int| 0 <= i < j < entries.len() ==> entries[i].addr != entries[j].addr
}

/// The entries with `e` recorded: in the place of the entry for its
/// address where there is one, else at the end.
pub open spec fn put(entries: Seq<RouteEntry>, e: RouteEntry) -> Seq<RouteEntry> {
    if has_addr(entries, e.addr) {
        entries.update(choose|i: int| 0 <= i < entries.len() && entries[i].addr == e.addr, e)
    } else {
        entries.push(e)
    }
}

/// Whether entry `i` has the fewest hops, and is the first that has.
pub open spec fn is_best(entries: Seq<RouteEntry>, i: int) -> bool {
    &&& 0 <= i < entries.len()
    &&& forall|j: int| 0 <= j < entries.len() ==> entries[i].info.hops <= entries[j].info.hops
    &&& forall|j: int| 0 <= j < i ==> entries[i].info.hops < entries[j].info.hops
}

/// The next hop with the fewest hops, the earliest recorded among equals;
/// `None` where there are no entries.
pub open spec fn best_addr(entries: Seq<RouteEntry>) -> Option<PeerAddr> {
    if entries.len() == 0 {
        None
    } else {
        Some(entries[choose|i: int| is_best(entries, i)].addr)
    }
}

/// The routes to one junction as plain values.
pub struct RouteView {
    /// The next hops in the order in which they were first recorded.
    pub entries: Seq<RouteEntry>,
    /// Which packages of the junction were seen.
    pub tracker: PacketTracker,
}

impl RouteView {
    /// The routes to a junction of which nothing is known yet.
    pub open spec fn fresh() -> RouteView {
        RouteView { entries: Seq::empty(), tracker: PacketTracker::fresh() }
    }

    /// The routes after a package with id `package_id` arrived through `e`.
    pub open spec fn updated(self, e: RouteEntry, package_id: u32) -> RouteView {
        RouteView { entries: put(self.entries, e), tracker: self.tracker.after(package_id as u64) }
    }

    /// Whether a package with id `package_id` is new.
    pub open spec fn admits(self, package_id: u32) -> bool {
        self.tracker.verdict(package_id as u64) == UpdateResult::Success
    }
}

/// The routes to one junction. No next hop is recorded twice.
pub struct Route {
    routes: Vec<RouteEntry>,
    package_info: RoutePackageInfo,
}

impl View for Route {
    type V = RouteView;

    closed spec fn view(&self) -> RouteView {
        RouteView { entries: self.routes@, tracker: self.package_info@ }
    }
}

/// Two entries are best only if they are the same entry.
pub proof fn lemma_best_is_unique(entries: Seq<RouteEntry>, i: int, j: int)
    requires
        is_best(entries, i),
        is_best(entries, j),
    ensures
        i == j,
{
    if i < j {
        assert(entries[j].info.hops < entries[i].info.hops);
        assert(entries[i].info.hops <= entries[j].info.hops);
    } else if j < i {
        assert(entries[i].info.hops < entries[j].info.hops);
        assert(entries[j].info.hops <= entries[i].info.hops);
    }
}

/// The best next hop of a list of entries is the address of one of them,
/// and no entry has fewer hops than that one.
pub proof fn lemma_best_addr_is_minimal(entries: Seq<RouteEntry>)
    requires
        entries.len() > 0,
    ensures
        exists|i: int|
            is_best(entries, i) && best_addr(entries) == Some(entries[i].addr),
{
    lemma_some_entry_is_best(entries, entries.len() as int);
    assert(entries.take(entries.len() as int) =~= entries);
    let w = choose|i: int| is_best(entries, i);
    assert(is_best(entries, w));
}

/// Where next hops towards a junction are recorded, the best route is one
/// of them, and none of them has fewer hops.
pub proof fn law_best_route_has_fewest_hops(table: Map<Seq<char>, RouteView>, id: Seq<char>)
    requires
        table.dom().contains(id),
        table[id].entries.len() > 0,
    ensures
        best_route(table, id) matches Some(a) && exists|i: int|
            0 <= i < table[id].entries.len() && table[id].entries[i].addr == a && forall|j: int|
                0 <= j < table[id].entries.len() ==> table[id].entries[i].info.hops <= (
                #[trigger] table[id].entries[j]).info.hops,
{
    let entries = table[id].entries;
    lemma_best_addr_is_minimal(entries);
    let w = choose|i: int| is_best(entries, i) && best_addr(entries) == Some(entries[i].addr);
    assert(forall|j: int|
        0 <= j < entries.len() ==> entries[w].info.hops <= (#[trigger] entries[j]).info.hops);
}

/// Once a package of a junction was recorded, a route to that junction
/// is known, whether or not the package was new.
pub proof fn law_route_known_after_update(
    table: Map<Seq<char>, RouteView>,
    id: Seq<char>,
    e: RouteEntry,
    package_id: u32,
)
    ensures
        best_route(table_updated(table, id, e, package_id), id) is Some,
{
    let after = table_updated(table, id, e, package_id);
    assert(after.dom().contains(id));
    assert(after[id].entries.len() > 0);
}

/// Among the first `n` entries one has the fewest hops and is the first
/// that has.
proof fn lemma_some_entry_is_best(entries: Seq<RouteEntry>, n: int)
    requires
        0 < n <= entries.len(),
    ensures
        exists|i: int| is_best(entries.take(n), i),
    decreases n,
{
    let t = entries.take(n);
    if n == 1 {
        assert(is_best(t, 0));
    } else {
        lemma_some_entry_is_best(entries, n - 1);
        let u = entries.take(n - 1);
        let b = choose|i: int| is_best(u, i);
        assert(forall|j: int| 0 <= j < n - 1 ==> u[j] == t[j]);
        let last = t[n - 1];
        let prev = t[b];
        if last.info.hops < prev.info.hops {
            assert forall|j: int| 0 <= j < n implies last.info.hops <= (#[trigger] t[j]).info.hops by {
                if j < n - 1 {
                    assert(u[b].info.hops <= u[j].info.hops);
                }
            }
            assert forall|j: int| 0 <= j < n - 1 implies last.info.hops < (#[trigger] t[j]).info.hops by {
                assert(u[b].info.hops <= u[j].info.hops);
            }
            assert(is_best(t, n - 1));
        } else {
            assert forall|j: int| 0 <= j < n implies prev.info.hops <= (#[trigger] t[j]).info.hops by {
                if j < n - 1 {
                    assert(u[b].info.hops <= u[j].info.hops);
                }
            }
            assert forall|j: int| 0 <= j < b implies prev.info.hops < (#[trigger] t[j]).info.hops by {
                assert(u[b].info.hops < u[j].info.hops);
            }
            assert(is_best(t, b));
        }
    }
}

impl Route {
    /// What `new` establishes and every method keeps: no next hop is
    /// recorded twice.
    pub closed spec fn wf(self) -> bool {
        distinct_addrs(self.routes@)
    }

    /// Routes to a junction of which nothing is known yet.
    pub fn new() -> (r: Route)
        ensures
            r@ == RouteView::fresh(),
            r.wf(),
    {
        Route { routes: Vec::new(), package_info: RoutePackageInfo::new() }
    }

    fn position(&self, addr: PeerAddr) -> (r: Option<usize>)
        ensures
            match r {
                Some(i) => i < self@.entries.len() && self@.entries[i as int].addr == addr,
                None => !has_addr(self@.entries, addr),
            },
    {
        let mut i: usize = 0;
        while i < self.routes.len()
            invariant
                i <= self.routes.len(),
                forall|k: int| 0 <= k < i ==> self.routes@[k].addr != addr,
            decreases self.routes.len() - i,
        {
            if self.routes[i].addr == addr {
                return Some(i);
            }
            i += 1;
        }
        None
    }

    /// Records that a package with id `package_id` arrived through `addr`
    /// after `hops` relays. Returns whether the package is new.
    pub fn update_route(&mut self, addr: PeerAddr, hops: u8, time_bits: u32, package_id: u32) -> (r:
        bool)
        requires
            old(self).wf(),
        ensures
            final(self).wf(),
            r == old(self)@.admits(package_id),
            final(self)@ == old(self)@.updated(
                RouteEntry { addr, info: RouteInfo { hops, time_bits } },
                package_id,
            ),
    {
        let entry = RouteEntry { addr, info: RouteInfo { hops, time_bits } };
        match self.position(addr) {
            Some(i) => {
                let ghost before = self.routes@;
                proof {
                    let c = choose|k: int| 0 <= k < before.len() && before[k].addr == addr;
                    assert(c == i);
                }
                self.routes.set(i, entry);
            },
            None => {
                self.routes.push(entry);
            },
        }
        self.package_info.update(package_id)
    }

    /// The next hop with the fewest hops, the earliest recorded among
    /// equals; `None` where no next hop is known.
    pub fn get_best_route(&self) -> (r: Option<PeerAddr>)
        ensures
            r == best_addr(self@.entries),
            r is None <==> self@.entries.len() == 0,
            r matches Some(a) ==> exists|i: int|
                is_best(self@.entries, i) && self@.entries[i].addr == a,
    {
        if self.routes.len() == 0 {
            return None;
        }
        let mut best: usize = 0;
        let mut i: usize = 1;
        while i < self.routes.len()
            invariant
                1 <= i <= self.routes.len(),
                best < i,
                forall|j: int|
                    0 <= j < i ==> self.routes@[best as int].info.hops <= self.routes@[j].info.hops,
                forall|j: int|
                    0 <= j < best ==> self.routes@[best as int].info.hops
                        < self.routes@[j].info.hops,
            decreases self.routes.len() - i,
        {
            if self.routes[i].info.hops < self.routes[best].info.hops {
                best = i;
            }
            i += 1;
        }
        proof {
            assert(is_best(self@.entries, best as int));
            let c = choose|k: int| is_best(self@.entries, k);
            lemma_best_is_unique(self@.entries, c, best as int);
        }
        Some(self.routes[best].addr)
    }
}

/// One junction of the table with the routes to it.
pub struct TableEntry {
    id: JunctionId,
    route: Route,
}

/// The routes of a table as plain values: for each junction heard of, the
/// routes to it.
pub type TableView = Map<Seq<char>, RouteView>;

/// The routes recorded for the junction `id`, or those of a junction of
/// which nothing is known.
pub open spec fn routes_to(table: TableView, id: Seq<char>) -> RouteView {
    if table.dom().contains(id) {
        table[id]
    } else {
        RouteView::fresh()
    }
}

/// The best next hop towards the junction `id`: the one with the fewest
/// hops, the earliest recorded among equals; `None` where no route to the
/// junction is known.
pub open spec fn best_route(table: TableView, id: Seq<char>) -> Option<PeerAddr> {
    if table.dom().contains(id) {
        best_addr(table[id].entries)
    } else {
        None
    }
}

/// The table after a package of the junction `id` arrived through `e`.
pub open spec fn table_updated(table: TableView, id: Seq<char>, e: RouteEntry, package_id: u32) -> TableView {
    table.insert(id, routes_to(table, id).updated(e, package_id))
}

/// Routes to every junction heard of. No junction has two slots.
pub struct RouteTable {
    junctions: Vec<TableEntry>,
}

impl RouteTable {
    /// The slots of the table in the order in which junctions were first
    /// heard of.
    pub closed spec fn slots(self) -> Seq<(Seq<char>, RouteView)> {
        Seq::new(
            self.junctions@.len(),
            |i: int| (self.junctions@[i].id@, self.junctions@[i].route@),
        )
    }

    /// What `new` establishes and every method keeps: no junction has
    /// two slots, and no route records a next hop twice.
    pub closed spec fn wf(self) -> bool {
        &&& distinct_ids(self.slots())
        &&& forall|i: int| 0 <= i < self.junctions@.len() ==> self.junctions@[i].route.wf()
    }
}

impl View for RouteTable {
    type V = TableView;

    closed spec fn view(&self) -> TableView {
        as_map(self.slots())
    }
}

impl RouteTable {
    /// A table without routes.
    pub fn new() -> (r: RouteTable)
        ensures
            r@ == Map::<Seq<char>, RouteView>::empty(),
            r.wf(),
    {
        let r = RouteTable { junctions: Vec::new() };
        assert(r@ =~= Map::<Seq<char>, RouteView>::empty());
        r
    }

    fn position(&self, junction_id: &JunctionId) -> (r: Option<usize>)
        ensures
            match r {
                Some(i) => i < self.slots().len() && self.slots()[i as int].0 == junction_id@,
                None => !has_id(self.slots(), junction_id@),
            },
    {
        let mut i: usize = 0;
        while i < self.junctions.len()
            invariant
                i <= self.junctions.len(),
                self.slots().len() == self.junctions@.len(),
                forall|k: int| 0 <= k < i ==> self.slots()[k].0 != junction_id@,
            decreases self.junctions.len() - i,
        {
            if self.junctions[i].id == *junction_id {
                return Some(i);
            }
            i += 1;
        }
        None
    }

    /// Records that a package of `junction_id` with id `package_id`
    /// arrived through `addr` after `hops` relays. Returns whether the
    /// package is new: whether no package with this id was recorded for
    /// the junction through any next hop.
    pub fn update_route(
        &mut self,
        junction_id: &JunctionId,
        addr: PeerAddr,
        hops: u8,
        time_bits: u32,
        package_id: u32,
    ) -> (r: bool)
        requires
            old(self).wf(),
        ensures
            final(self).wf(),
            r == routes_to(old(self)@, junction_id@).admits(package_id),
            final(self)@ == table_updated(
                old(self)@,
                junction_id@,
                RouteEntry { addr, info: RouteInfo { hops, time_bits } },
                package_id,
            ),
    {
        let ghost before = self.slots();
        let ghost routes_before = self.junctions@;
        match self.position(junction_id) {
            Some(i) => {
                proof {
                    lemma_lookup_at(before, i as int);
                    lemma_slot_removed(before, i as int);
                    assert(self.slots().remove(i as int) =~= before.remove(i as int));
                }
                let mut slot = self.junctions.remove(i);
                let ghost mid = self.slots();
                assert(mid =~= before.remove(i as int));
                let r = slot.route.update_route(addr, hops, time_bits, package_id);
                proof {
                    let after = mid.insert(i as int, (slot.id@, slot.route@));
                    assert(after.len() == before.len());
                    assert(forall|k: int|
                        0 <= k < before.len() && k != i ==> after[k] == before[k]);
                    lemma_slot_changed(before, after, i as int);
                }
                self.junctions.insert(i, slot);
                assert(self.slots() =~= mid.insert(i as int, (slot.id@, slot.route@)));
                r
            },
            None => {
                let mut route = Route::new();
                let r = route.update_route(addr, hops, time_bits, package_id);
                let slot = TableEntry { id: junction_id.clone(), route };
                proof {
                    lemma_slot_pushed(before, slot.id@, slot.route@);
                    lemma_absent(before, junction_id@);
                }
                self.junctions.push(slot);
                assert(self.slots() =~= before.push((slot.id@, slot.route@)));
                r
            },
        }
    }

    /// The best next hop towards `junction_id`: the one with the fewest
    /// hops; `None` where no route to the junction is known.
    pub fn get_best_route(&self, junction_id: &JunctionId) -> (r: Option<PeerAddr>)
        requires
            self.wf(),
        ensures
            r == best_route(self@, junction_id@),
    {
        match self.position(junction_id) {
            Some(i) => {
                proof {
                    lemma_lookup_at(self.slots(), i as int);
                }
                self.junctions[i].route.get_best_route()
            },
            None => None,
        }
    }

    /// Forgets all routes to `junction_id` and returns them, if there
    /// were any.
    pub fn remove(&mut self, junction_id: &JunctionId) -> (r: Option<Route>)
        requires
            old(self).wf(),
        ensures
            final(self).wf(),
            final(self)@ == old(self)@.remove(junction_id@),
            match r {
                Some(route) => old(self)@.dom().contains(junction_id@) && old(self)@[junction_id@]
                    == route@,
                None => !old(self)@.dom().contains(junction_id@),
            },
    {
        let ghost before = self.slots();
        match self.position(junction_id) {
            Some(i) => {
                proof {
                    lemma_lookup_at(before, i as int);
                    lemma_slot_removed(before, i as int);
                    assert(self.slots().remove(i as int) =~= before.remove(i as int));
                }
                let slot = self.junctions.remove(i);
                assert(self.slots() =~= before.remove(i as int));
                Some(slot.route)
            },
            None => {
                proof {
                    lemma_absent(before, junction_id@);
                }
                None
            },
        }
    }
}

} // verus!
