//! Packages on their way through several junctions: what the junctions
//! along a path do with a package, one after the other.

use crate::addr::PeerAddr;
use crate::fanout::without;
use crate::json::json_value;
use crate::junction::{
    after_arrivals, after_outgoing, after_receive, entry_for, is_new, law_fan_in_delivers_once,
    next_u32, outgoing, reaction_to, targets_for, with_peer, DispatchView, JunctionView,
    ReactionView,
};
use crate::package::{PackageType, PackageView, MAX_HOPS};
use crate::route::{
    best_route, has_addr, is_best, law_route_known_after_update, lemma_best_is_unique, routes_to,
    table_updated, RouteView,
};
use crate::tracker::lemma_parts;
use vstd::prelude::*;

verus! {

/// The dispatch with which a junction sends on a package that arrived
/// from `from`; `None` where it sends nothing on.
pub open spec fn sent_on(s: JunctionView, p: PackageView, from: PeerAddr) -> Option<DispatchView> {
    match reaction_to(s, p, from) {
        ReactionView::Transmit(d) => Some(d),
        _ => None,
    }
}

/// Whether a package for `recipient` that reaches a junction from `from`
/// goes on to `next` alone.
pub open spec fn leads_on(
    s: JunctionView,
    recipient: Seq<char>,
    from: PeerAddr,
    next: PeerAddr,
) -> bool {
    targets_for(with_peer(s.known, from), s.routes, recipient, Some(from)) == seq![next]
}

/// Whether a junction knows exactly `peers` and has learnt no route.
pub open spec fn acquainted(s: JunctionView, peers: Seq<PeerAddr>) -> bool {
    s.known == peers && s.routes == Map::<Seq<char>, RouteView>::empty()
}

/// The first package that a junction hears of a sender is new if its id
/// is not 0, and the route to the sender then leads through the peer it
/// came from. Routes to other junctions stay as they were.
pub proof fn lemma_first_package(s: JunctionView, p: PackageView, from: PeerAddr)
    requires
        !s.routes.dom().contains(p.sender),
    ensures
        is_new(s, p) == (p.package_id != 0),
        best_route(
            table_updated(s.routes, p.sender, entry_for(p, from), p.package_id),
            p.sender,
        ) == Some(from),
        forall|other: Seq<char>|
            other != p.sender ==> best_route(
                table_updated(s.routes, p.sender, entry_for(p, from), p.package_id),
                other,
            ) == best_route(s.routes, other),
{
    lemma_parts(0, 0);
    let e = entry_for(p, from);
    let after = table_updated(s.routes, p.sender, e, p.package_id);
    let entries = after[p.sender].entries;
    assert(entries =~= seq![e]);
    assert(is_best(entries, 0));
    lemma_best_is_unique(entries, 0, choose|i: int| is_best(entries, i));
}

/// A package that arrives leaves the routes to every junction but its
/// sender as they were.
pub proof fn lemma_other_routes_stay(s: JunctionView, p: PackageView, from: PeerAddr, other: Seq<char>)
    requires
        other != p.sender,
    ensures
        best_route(
            table_updated(s.routes, p.sender, entry_for(p, from), p.package_id),
            other,
        ) == best_route(s.routes, other),
        routes_to(
            table_updated(s.routes, p.sender, entry_for(p, from), p.package_id),
            other,
        ) == routes_to(s.routes, other),
{
}

/// What one junction on a path does with a package that is not for it:
/// where the package is new, is no Hello, has hops left and the junction
/// leads on to `next`, the package goes to `next` alone, with one hop
/// more, and a route to its sender is known afterwards.
pub proof fn lemma_passed_on(s: JunctionView, p: PackageView, from: PeerAddr, next: PeerAddr)
    requires
        p.package_type != PackageType::Hello.code(),
        p.recipient != s.junction_id,
        p.recipient != p.sender,
        p.hop_count + 1 < MAX_HOPS,
        is_new(s, p),
        leads_on(s, p.recipient, from, next),
    ensures
        sent_on(s, p, from) matches Some(d) && d.targets == seq![next] && d.package
            == (PackageView { hop_count: (p.hop_count + 1) as u8, ..p }),
        best_route(after_receive(s, p, from).routes, p.sender) is Some,
        after_receive(s, p, from).junction_id == s.junction_id,
        after_receive(s, p, from).addr == s.addr,
        after_receive(s, p, from).known == with_peer(s.known, from),
        after_receive(s, p, from).received == s.received,
        after_receive(s, p, from).send_queue == s.send_queue,
        after_receive(s, p, from).sent_package_count == s.sent_package_count,
        forall|other: Seq<char>|
            other != p.sender ==> routes_to(after_receive(s, p, from).routes, other) == routes_to(
                s.routes,
                other,
            ) && best_route(after_receive(s, p, from).routes, other) == best_route(
                s.routes,
                other,
            ),
{
    lemma_other_routes_stay(s, p, from, p.recipient);
    law_route_known_after_update(
        s.routes,
        p.sender,
        entry_for(p, from),
        p.package_id,
    );
    assert forall|other: Seq<char>| other != p.sender implies routes_to(
        after_receive(s, p, from).routes,
        other,
    ) == routes_to(s.routes, other) && best_route(after_receive(s, p, from).routes, other)
        == best_route(s.routes, other) by {
        lemma_other_routes_stay(s, p, from, other);
    }
}

/// What the junction at the end of a path does with a Json package for
/// it: where the package is new and its payload is JSON, the value is
/// queued for the application with the peer it came from, the package
/// counts as new, and a route to its sender is known afterwards.
pub proof fn lemma_taken(s: JunctionView, p: PackageView, from: PeerAddr)
    requires
        p.package_type == PackageType::Json.code(),
        p.recipient == s.junction_id,
        json_value(p.payload) is Some,
        is_new(s, p),
    ensures
        reaction_to(s, p, from) == ReactionView::Delivered,
        after_receive(s, p, from).received == s.received.push(
            (from, json_value(p.payload).unwrap()),
        ),
        after_receive(s, p, from).unique_package_count == next_u32(s.unique_package_count),
        after_receive(s, p, from).duplicate_package_count == s.duplicate_package_count,
        best_route(after_receive(s, p, from).routes, p.sender) is Some,
{
    law_route_known_after_update(
        s.routes,
        p.sender,
        entry_for(p, from),
        p.package_id,
    );
}

/// Four junctions in a row.
pub struct Line {
    pub a: JunctionView,
    pub b: JunctionView,
    pub c: JunctionView,
    pub d: JunctionView,
}

/// The three dispatches by which the first package that waits at `a`
/// travels a line: from `a`, sent on by `b`, sent on by `c`.
pub open spec fn line_dispatches(l: Line) -> (DispatchView, DispatchView, DispatchView) {
    let d1 = outgoing(l.a).unwrap();
    let d2 = sent_on(l.b, d1.package, l.a.addr).unwrap();
    let d3 = sent_on(l.c, d2.package, l.b.addr).unwrap();
    (d1, d2, d3)
}

/// The line after the first package that waits at `a` has travelled it:
/// `a` has sent it, `b` and `c` have sent it on and `d` has taken it.
pub open spec fn line_carried(l: Line) -> Line {
    let (d1, d2, d3) = line_dispatches(l);
    Line {
        a: after_outgoing(l.a),
        b: after_receive(l.b, d1.package, l.a.addr),
        c: after_receive(l.c, d2.package, l.b.addr),
        d: after_receive(l.d, d3.package, l.c.addr),
    }
}

/// Whether the first package that waits at `a` is a Json package of `a`
/// for `d` that every junction of the line leads on to the next, and
/// that is new to `b`, `c` and `d`.
pub open spec fn line_ready(l: Line) -> bool {
    let p = l.a.send_queue[0];
    let id = next_u32(l.a.sent_package_count);
    &&& l.a.send_queue.len() > 0
    &&& p.package_type == PackageType::Json.code()
    &&& p.sender == l.a.junction_id
    &&& p.recipient == l.d.junction_id
    &&& p.hop_count == 0
    &&& json_value(p.payload) is Some
    &&& l.a.junction_id != l.d.junction_id
    &&& l.b.junction_id != l.d.junction_id
    &&& l.c.junction_id != l.d.junction_id
    &&& targets_for(l.a.known, l.a.routes, p.recipient, None) == seq![l.b.addr]
    &&& leads_on(l.b, p.recipient, l.a.addr, l.c.addr)
    &&& leads_on(l.c, p.recipient, l.b.addr, l.d.addr)
    &&& routes_to(l.b.routes, p.sender).admits(id)
    &&& routes_to(l.c.routes, p.sender).admits(id)
    &&& routes_to(l.d.routes, p.sender).admits(id)
}

/// A package travels a line that is ready for it: `a` sends it to `b`
/// alone, `b` to `c` alone and `c` to `d` alone, each relay adding one
/// hop, and `d` queues its value for the application once, with `c` as
/// the peer it came from. Afterwards `b`, `c` and `d` know a route to
/// `a`.
pub proof fn law_line_delivers(l: Line)
    requires
        line_ready(l),
    ensures
        ({
            let (d1, d2, d3) = line_dispatches(l);
            let after = line_carried(l);
            let p = l.a.send_queue[0];
            &&& d1.targets == seq![l.b.addr]
            &&& d2.targets == seq![l.c.addr]
            &&& d3.targets == seq![l.d.addr]
            &&& d1.package == p.with_id(next_u32(l.a.sent_package_count))
            &&& d2.package == (PackageView { hop_count: 1, ..d1.package })
            &&& d3.package == (PackageView { hop_count: 2, ..d1.package })
            &&& reaction_to(l.d, d3.package, l.c.addr) == ReactionView::Delivered
            &&& after.d.received == l.d.received.push((l.c.addr, json_value(p.payload).unwrap()))
            &&& after.d.duplicate_package_count == l.d.duplicate_package_count
            &&& after.b.received == l.b.received
            &&& after.c.received == l.c.received
            &&& best_route(after.b.routes, l.a.junction_id) is Some
            &&& best_route(after.c.routes, l.a.junction_id) is Some
            &&& best_route(after.d.routes, l.a.junction_id) is Some
        }),
{
    let p = l.a.send_queue[0];
    let d1 = outgoing(l.a).unwrap();
    lemma_passed_on(l.b, d1.package, l.a.addr, l.c.addr);
    let d2 = sent_on(l.b, d1.package, l.a.addr).unwrap();
    lemma_passed_on(l.c, d2.package, l.b.addr, l.d.addr);
    let d3 = sent_on(l.c, d2.package, l.b.addr).unwrap();
    lemma_taken(l.d, d3.package, l.c.addr);
}

/// Whether four junctions stand in a line in which each knows its
/// neighbours and nothing else, none has learnt a route, all have
/// different names and addresses, and the first package that waits at
/// `a` is a Json package of `a` for `d` that gets an id above 0.
pub open spec fn fresh_line(l: Line) -> bool {
    let p = l.a.send_queue[0];
    &&& acquainted(l.a, seq![l.b.addr])
    &&& acquainted(l.b, seq![l.a.addr, l.c.addr])
    &&& acquainted(l.c, seq![l.b.addr, l.d.addr])
    &&& acquainted(l.d, seq![l.c.addr])
    &&& l.a.addr != l.b.addr && l.a.addr != l.c.addr && l.a.addr != l.d.addr
    &&& l.b.addr != l.c.addr && l.b.addr != l.d.addr && l.c.addr != l.d.addr
    &&& l.a.junction_id != l.b.junction_id && l.a.junction_id != l.c.junction_id
    &&& l.a.junction_id != l.d.junction_id && l.b.junction_id != l.c.junction_id
    &&& l.b.junction_id != l.d.junction_id && l.c.junction_id != l.d.junction_id
    &&& l.a.send_queue.len() > 0
    &&& p.package_type == PackageType::Json.code()
    &&& p.sender == l.a.junction_id
    &&& p.recipient == l.d.junction_id
    &&& p.hop_count == 0
    &&& json_value(p.payload) is Some
    &&& next_u32(l.a.sent_package_count) != 0
}

/// What remains of one or two known peers when a peer is left out, and
/// that a peer known already is not added again.
proof fn lemma_without_one_of_two(x: PeerAddr, y: PeerAddr)
    requires
        x != y,
    ensures
        without(seq![x, y], Some(x)) == seq![y],
        without(seq![x, y], Some(y)) == seq![x],
        without(seq![x], None::<PeerAddr>) == seq![x],
        without(seq![x], Some(y)) == seq![x],
        with_peer(seq![x, y], x) == seq![x, y],
        with_peer(seq![x, y], y) == seq![x, y],
        with_peer(seq![x], x) == seq![x],
{
    let two = seq![x, y];
    let one = seq![x];
    assert(two.drop_last() =~= one);
    assert(one.drop_last() =~= Seq::<PeerAddr>::empty());
    assert(two.last() == y && one.last() == x);
    assert(without(Seq::<PeerAddr>::empty(), Some(x)) =~= Seq::<PeerAddr>::empty());
    assert(without(Seq::<PeerAddr>::empty(), Some(y)) =~= Seq::<PeerAddr>::empty());
    assert(without(Seq::<PeerAddr>::empty(), None::<PeerAddr>) =~= Seq::<PeerAddr>::empty());
    assert(without(one, Some(x)) =~= Seq::<PeerAddr>::empty());
    assert(without(one, Some(y)) =~= seq![x]);
    assert(without(one, None::<PeerAddr>) =~= seq![x]);
    assert(without(two, Some(x)) =~= seq![y]);
    assert(without(two, Some(y)) =~= seq![x]);
    assert(two[0] == x && two[1] == y && one[0] == x);
    assert(two.contains(x) && two.contains(y) && one.contains(x));
}

/// In a line of four junctions that have greeted their neighbours and
/// learnt nothing else, a Json package of the first for the last is
/// delivered there once, with the third junction as the peer it came
/// from, and the last junction then knows a route to the first.
pub proof fn law_fresh_line_delivers(l: Line)
    requires
        fresh_line(l),
    ensures
        line_ready(l),
        ({
            let after = line_carried(l);
            let p = l.a.send_queue[0];
            &&& after.d.received == l.d.received.push((l.c.addr, json_value(p.payload).unwrap()))
            &&& after.d.duplicate_package_count == l.d.duplicate_package_count
            &&& best_route(after.d.routes, l.a.junction_id) == Some(l.c.addr)
            &&& best_route(after.c.routes, l.a.junction_id) == Some(l.b.addr)
            &&& best_route(after.b.routes, l.a.junction_id) == Some(l.a.addr)
            &&& after.b.known == l.b.known && after.c.known == l.c.known && after.d.known
                == l.d.known && after.a.known == l.a.known
        }),
{
    let p = l.a.send_queue[0];
    let id = next_u32(l.a.sent_package_count);
    lemma_without_one_of_two(l.b.addr, l.a.addr);
    lemma_without_one_of_two(l.a.addr, l.c.addr);
    lemma_without_one_of_two(l.b.addr, l.d.addr);
    lemma_without_one_of_two(l.c.addr, l.d.addr);
    let d1 = outgoing(l.a).unwrap();
    lemma_first_package(l.b, d1.package, l.a.addr);
    assert(line_ready(l)) by {
        lemma_parts(0, 0);
    }
    law_line_delivers(l);
    let d2 = sent_on(l.b, d1.package, l.a.addr).unwrap();
    lemma_first_package(l.c, d2.package, l.b.addr);
    let d3 = sent_on(l.c, d2.package, l.b.addr).unwrap();
    lemma_first_package(l.d, d3.package, l.c.addr);
}

/// The line turned round, with the package `q` waiting at its new start
/// and nothing else.
pub open spec fn turned(l: Line, q: PackageView) -> Line {
    Line { a: JunctionView { send_queue: seq![q], ..l.d }, b: l.c, c: l.b, d: l.a }
}

/// In a line of four junctions that have greeted their neighbours, a
/// Json package of the first for the last is delivered there once, and
/// a Json package that the last then sends to the first travels back
/// along the routes learnt, each junction sending it to the next alone,
/// and is delivered at the first once, with the second junction as the
/// peer it came from.
pub proof fn law_line_there_and_back(l: Line, q: PackageView)
    requires
        fresh_line(l),
        q.package_type == PackageType::Json.code(),
        q.sender == l.d.junction_id,
        q.recipient == l.a.junction_id,
        q.hop_count == 0,
        json_value(q.payload) is Some,
        next_u32(l.d.sent_package_count) != 0,
    ensures
        ({
            let there = line_carried(l);
            let back = line_carried(turned(there, q));
            let (e1, e2, e3) = line_dispatches(turned(there, q));
            let p = l.a.send_queue[0];
            &&& there.d.received == l.d.received.push((l.c.addr, json_value(p.payload).unwrap()))
            &&& e1.targets == seq![l.c.addr]
            &&& e2.targets == seq![l.b.addr]
            &&& e3.targets == seq![l.a.addr]
            &&& back.d.received == l.a.received.push((l.b.addr, json_value(q.payload).unwrap()))
            &&& back.d.duplicate_package_count == l.a.duplicate_package_count
        }),
{
    law_fresh_line_delivers(l);
    law_line_delivers(l);
    let there = line_carried(l);
    let t = turned(there, q);
    let (d1, d2, d3) = line_dispatches(l);
    lemma_passed_on(l.b, d1.package, l.a.addr, l.c.addr);
    lemma_passed_on(l.c, d2.package, l.b.addr, l.d.addr);
    lemma_without_one_of_two(l.b.addr, l.a.addr);
    lemma_without_one_of_two(l.a.addr, l.c.addr);
    lemma_without_one_of_two(l.b.addr, l.d.addr);
    lemma_without_one_of_two(l.c.addr, l.d.addr);
    lemma_parts(0, 0);
    assert(!there.c.routes.dom().contains(l.d.junction_id));
    assert(!there.b.routes.dom().contains(l.d.junction_id));
    assert(!there.a.routes.dom().contains(l.d.junction_id));
    assert(line_ready(t));
    law_line_delivers(t);
}

/// Four junctions in a square: `a` knows `b` and `c`, which both know
/// `d`.
pub struct Square {
    pub a: JunctionView,
    pub b: JunctionView,
    pub c: JunctionView,
    pub d: JunctionView,
}

/// Whether four junctions stand in a square in which `a` knows `b` and
/// `c`, each of these knows `a` and `d`, none has learnt a route, all
/// have different addresses, `d` has a name of its own, and the first
/// package that waits at `a` is a Json package of `a` for `d` that gets
/// an id above 0.
pub open spec fn fresh_square(q: Square) -> bool {
    let p = q.a.send_queue[0];
    &&& acquainted(q.a, seq![q.b.addr, q.c.addr])
    &&& acquainted(q.b, seq![q.a.addr, q.d.addr])
    &&& acquainted(q.c, seq![q.a.addr, q.d.addr])
    &&& q.d.routes == Map::<Seq<char>, RouteView>::empty()
    &&& q.a.addr != q.b.addr && q.a.addr != q.c.addr && q.a.addr != q.d.addr
    &&& q.b.addr != q.c.addr && q.b.addr != q.d.addr && q.c.addr != q.d.addr
    &&& q.a.junction_id != q.d.junction_id
    &&& q.b.junction_id != q.d.junction_id
    &&& q.c.junction_id != q.d.junction_id
    &&& q.a.send_queue.len() > 0
    &&& p.package_type == PackageType::Json.code()
    &&& p.sender == q.a.junction_id
    &&& p.recipient == q.d.junction_id
    &&& p.hop_count == 0
    &&& json_value(p.payload) is Some
    &&& next_u32(q.a.sent_package_count) != 0
    &&& q.d.duplicate_package_count < usize::MAX
}

/// In a square, a Json package of `a` for `d` goes from `a` to `b` and
/// `c`, each of which sends it on to `d` alone. Of the two copies that
/// reach `d`, the first is queued for the application and the second is
/// counted as a duplicate: one value waits, and the duplicate count has
/// grown by one. What `d` then sends to `a` goes to `b` alone, the first
/// of the two routes learnt.
pub proof fn law_square_delivers_once(q: Square)
    requires
        fresh_square(q),
    ensures
        ({
            let p = q.a.send_queue[0];
            let d1 = outgoing(q.a).unwrap();
            let via_b = sent_on(q.b, d1.package, q.a.addr);
            let via_c = sent_on(q.c, d1.package, q.a.addr);
            &&& d1.targets == seq![q.b.addr, q.c.addr]
            &&& via_b matches Some(d2) && d2.targets == seq![q.d.addr]
            &&& via_c matches Some(d3) && d3.targets == seq![q.d.addr]
            &&& ({
                let first = after_receive(q.d, via_b.unwrap().package, q.b.addr);
                let second = after_receive(first, via_c.unwrap().package, q.c.addr);
                &&& first.received == q.d.received.push((q.b.addr, json_value(p.payload).unwrap()))
                &&& second.received == first.received
                &&& second.duplicate_package_count == q.d.duplicate_package_count + 1
                &&& second.unique_package_count == next_u32(q.d.unique_package_count)
                &&& best_route(second.routes, q.a.junction_id) == Some(q.b.addr)
                &&& targets_for(second.known, second.routes, q.a.junction_id, None) == seq![
                    q.b.addr,
                ]
            })
        }),
{
    let p = q.a.send_queue[0];
    let d1 = outgoing(q.a).unwrap();
    lemma_parts(0, 0);
    lemma_without_one_of_two(q.a.addr, q.d.addr);
    let known = seq![q.b.addr, q.c.addr];
    assert(without(known, None::<PeerAddr>) =~= known) by {
        let one = seq![q.b.addr];
        assert(known.drop_last() =~= one);
        assert(one.drop_last() =~= Seq::<PeerAddr>::empty());
        assert(without(Seq::<PeerAddr>::empty(), None::<PeerAddr>) =~= Seq::<PeerAddr>::empty());
        assert(without(one, None::<PeerAddr>) =~= one);
    }
    lemma_first_package(q.b, d1.package, q.a.addr);
    lemma_first_package(q.c, d1.package, q.a.addr);
    lemma_passed_on(q.b, d1.package, q.a.addr, q.d.addr);
    lemma_passed_on(q.c, d1.package, q.a.addr, q.d.addr);
    let d2 = sent_on(q.b, d1.package, q.a.addr).unwrap();
    let d3 = sent_on(q.c, d1.package, q.a.addr).unwrap();
    assert(d2.package == d3.package);
    lemma_first_package(q.d, d2.package, q.b.addr);
    let arrivals = seq![(1u8, q.b.addr), (1u8, q.c.addr)];
    law_fan_in_delivers_once(q.d, d2.package, arrivals);
    let head = arrivals.drop_last();
    assert(head =~= seq![(1u8, q.b.addr)]);
    assert(head.drop_last() =~= Seq::<(u8, PeerAddr)>::empty());
    let copy = PackageView { hop_count: 1, ..d2.package };
    assert(copy == d2.package);
    let first = after_receive(q.d, d2.package, q.b.addr);
    assert(after_arrivals(q.d, d2.package, head) == first) by {
        assert(after_arrivals(
            q.d,
            d2.package,
            Seq::<(u8, PeerAddr)>::empty(),
        ) == q.d);
        assert(head.last() == (1u8, q.b.addr));
    }
    assert(after_arrivals(q.d, d2.package, arrivals) == after_receive(
        first,
        d3.package,
        q.c.addr,
    )) by {
        assert(arrivals.last() == (1u8, q.c.addr));
    }
    lemma_taken(q.d, d2.package, q.b.addr);
    let second = after_receive(first, d3.package, q.c.addr);
    let e_b = entry_for(d2.package, q.b.addr);
    let e_c = entry_for(d3.package, q.c.addr);
    let learnt = second.routes[q.a.junction_id].entries;
    assert(first.routes[q.a.junction_id].entries =~= seq![e_b]);
    assert(!has_addr(seq![e_b], q.c.addr));
    assert(learnt =~= seq![e_b, e_c]);
    assert(is_best(learnt, 0));
    lemma_best_is_unique(learnt, 0, choose|i: int| is_best(learnt, i));
}

} // verus!
