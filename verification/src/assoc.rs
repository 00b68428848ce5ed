//! Lists of values keyed by junction name, one slot for each name.

use vstd::prelude::*;

verus! {

/// Whether some slot is for the junction `id`.
pub open spec fn has_id<V>(slots: Seq<(Seq<char>, V)>, id: Seq<char>) -> bool {
    exists|i: int| 0 <= i < slots.len() && slots[i].0 == id
}

/// The value recorded for the junction `id`, if one is.
pub open spec fn lookup<V>(slots: Seq<(Seq<char>, V)>, id: Seq<char>) -> Option<V> {
    if has_id(slots, id) {
        Some(slots[choose|i: int| 0 <= i < slots.len() && slots[i].0 == id].1)
    } else {
        None
    }
}

/// Whether no junction has two slots.
pub open spec fn distinct_ids<V>(slots: Seq<(Seq<char>, V)>) -> bool {
    forall|i: int, j: int| 0 <= i < j < slots.len() ==> slots[i].0 != slots[j].0
}

/// The map from each junction that has a slot to the value in its slot.
pub open spec fn as_map<V>(slots: Seq<(Seq<char>, V)>) -> Map<Seq<char>, V> {
    Map::new(|id: Seq<char>| has_id(slots, id), |id: Seq<char>| lookup(slots, id).unwrap())
}

/// The slot of a junction is the one that a lookup finds.
pub proof fn lemma_lookup_at<V>(slots: Seq<(Seq<char>, V)>, i: int)
    requires
        distinct_ids(slots),
        0 <= i < slots.len(),
    ensures
        has_id(slots, slots[i].0),
        lookup(slots, slots[i].0) == Some(slots[i].1),
{
    let c = choose|k: int| 0 <= k < slots.len() && slots[k].0 == slots[i].0;
    assert(c == i);
}

/// Putting a new value in one slot puts it in the map and changes
/// nothing else.
pub proof fn lemma_slot_changed<V>(before: Seq<(Seq<char>, V)>, after: Seq<(Seq<char>, V)>, i: int)
    requires
        distinct_ids(before),
        0 <= i < before.len(),
        after.len() == before.len(),
        after[i].0 == before[i].0,
        forall|k: int| 0 <= k < before.len() && k != i ==> after[k] == before[k],
    ensures
        distinct_ids(after),
        as_map(after) == as_map(before).insert(before[i].0, after[i].1),
{
    assert forall|x: int, y: int| 0 <= x < y < after.len() implies after[x].0 != after[y].0 by {
        assert(after[x].0 == before[x].0 && after[y].0 == before[y].0);
    }
    lemma_lookup_at(after, i);
    assert forall|id: Seq<char>| id != before[i].0 implies has_id(after, id) == has_id(before, id)
        && lookup(after, id) == lookup(before, id) by {
        if has_id(before, id) {
            let c = choose|k: int| 0 <= k < before.len() && before[k].0 == id;
            assert(after[c] == before[c]);
            lemma_lookup_at(after, c);
            lemma_lookup_at(before, c);
        } else if has_id(after, id) {
            let d = choose|k: int| 0 <= k < after.len() && after[k].0 == id;
            assert(before[d].0 == id);
        }
    }
    assert(as_map(after) =~= as_map(before).insert(before[i].0, after[i].1));
}

/// Adding a slot for a new junction adds it to the map and changes
/// nothing else.
pub proof fn lemma_slot_pushed<V>(before: Seq<(Seq<char>, V)>, id: Seq<char>, value: V)
    requires
        distinct_ids(before),
        !has_id(before, id),
    ensures
        distinct_ids(before.push((id, value))),
        as_map(before.push((id, value))) == as_map(before).insert(id, value),
{
    let after = before.push((id, value));
    let n = before.len() as int;
    assert forall|x: int, y: int| 0 <= x < y < after.len() implies after[x].0 != after[y].0 by {
        if y < n {
            assert(after[x] == before[x] && after[y] == before[y]);
        } else {
            assert(after[x] == before[x]);
        }
    }
    lemma_lookup_at(after, n);
    assert forall|other: Seq<char>| other != id implies has_id(after, other) == has_id(
        before,
        other,
    ) && lookup(after, other) == lookup(before, other) by {
        if has_id(before, other) {
            let c = choose|k: int| 0 <= k < before.len() && before[k].0 == other;
            assert(after[c] == before[c]);
            lemma_lookup_at(after, c);
            lemma_lookup_at(before, c);
        } else if has_id(after, other) {
            let d = choose|k: int| 0 <= k < after.len() && after[k].0 == other;
            assert(before[d].0 == other);
        }
    }
    assert(as_map(after) =~= as_map(before).insert(id, value));
}

/// Taking out one slot takes its junction out of the map and changes
/// nothing else.
pub proof fn lemma_slot_removed<V>(before: Seq<(Seq<char>, V)>, i: int)
    requires
        distinct_ids(before),
        0 <= i < before.len(),
    ensures
        distinct_ids(before.remove(i)),
        !has_id(before.remove(i), before[i].0),
        as_map(before.remove(i)) == as_map(before).remove(before[i].0),
{
    let after = before.remove(i);
    assert forall|a: int, b: int| 0 <= a < b < after.len() implies after[a].0 != after[b].0 by {
        let a2 = if a < i { a } else { a + 1 };
        let b2 = if b < i { b } else { b + 1 };
        assert(after[a] == before[a2] && after[b] == before[b2]);
    }
    if has_id(after, before[i].0) {
        let d = choose|k: int| 0 <= k < after.len() && after[k].0 == before[i].0;
        let d2 = if d < i { d } else { d + 1 };
        assert(after[d] == before[d2]);
    }
    assert forall|other: Seq<char>| other != before[i].0 implies has_id(after, other) == has_id(
        before,
        other,
    ) && lookup(after, other) == lookup(before, other) by {
        if has_id(before, other) {
            let c = choose|k: int| 0 <= k < before.len() && before[k].0 == other;
            let c2 = if c < i { c } else { c - 1 };
            assert(after[c2] == before[c]);
            lemma_lookup_at(after, c2);
            lemma_lookup_at(before, c);
        } else if has_id(after, other) {
            let d = choose|k: int| 0 <= k < after.len() && after[k].0 == other;
            let d2 = if d < i { d } else { d + 1 };
            assert(after[d] == before[d2]);
        }
    }
    assert(as_map(after) =~= as_map(before).remove(before[i].0));
}

/// A junction without a slot is not in the map.
pub proof fn lemma_absent<V>(slots: Seq<(Seq<char>, V)>, id: Seq<char>)
    requires
        !has_id(slots, id),
    ensures
        !as_map(slots).dom().contains(id),
        as_map(slots).remove(id) == as_map(slots),
{
    assert(as_map(slots).remove(id) =~= as_map(slots));
}

} // verus!
