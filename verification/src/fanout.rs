//! Whom to send to when everyone but one is to be reached.

use vstd::prelude::*;

verus! {

/// The items of `known` in their order, `except` left out.
pub open spec fn without<T>(known: Seq<T>, except: Option<T>) -> Seq<T>
    decreases known.len(),
{
    if known.len() == 0 {
        Seq::empty()
    } else if Some(known.last()) == except {
        without(known.drop_last(), except)
    } else {
        without(known.drop_last(), except).push(known.last())
    }
}

/// What is in a list with one item left out: the items of the list
/// but that one, and none twice if none was twice before.
pub proof fn lemma_without<T>(known: Seq<T>, except: Option<T>)
    ensures
        forall|a: T|
            without(known, except).contains(a) <==> known.contains(a) && Some(a) != except,
        known.no_duplicates() ==> without(known, except).no_duplicates(),
        without(known, except).len() <= known.len(),
    decreases known.len(),
{
    if known.len() > 0 {
        let head = known.drop_last();
        let last = known.last();
        lemma_without(head, except);
        let w = without(head, except);
        let out = without(known, except);
        assert forall|a: T| out.contains(a) <==> known.contains(a) && Some(a)
            != except by {
            if known.contains(a) {
                let i = choose|i: int| 0 <= i < known.len() && known[i] == a;
                if i < head.len() {
                    assert(head[i] == a);
                    assert(head.contains(a));
                }
            }
            if head.contains(a) {
                let i = choose|i: int| 0 <= i < head.len() && head[i] == a;
                assert(known[i] == a);
            }
            if Some(last) != except {
                assert(out == w.push(last));
                assert(out[out.len() - 1] == last);
                if w.contains(a) {
                    let i = choose|i: int| 0 <= i < w.len() && w[i] == a;
                    assert(out[i] == a);
                }
                if out.contains(a) {
                    let i = choose|i: int| 0 <= i < out.len() && out[i] == a;
                    if i < w.len() {
                        assert(w[i] == a);
                    }
                }
            }
        }
        if known.no_duplicates() {
            assert(head.no_duplicates()) by {
                assert forall|i: int, j: int|
                    0 <= i < head.len() && 0 <= j < head.len() && i != j implies head[i]
                    != head[j] by {
                    assert(known[i] != known[j]);
                }
            }
            if Some(last) != except {
                assert(!head.contains(last)) by {
                    if head.contains(last) {
                        let i = choose|i: int| 0 <= i < head.len() && head[i] == last;
                        assert(known[i] == known[known.len() - 1]);
                    }
                }
                assert(!w.contains(last));
                assert forall|i: int, j: int|
                    0 <= i < out.len() && 0 <= j < out.len() && i != j implies out[i]
                    != out[j] by {
                    if i < w.len() && j < w.len() {
                        assert(w[i] != w[j]);
                    } else if i < w.len() {
                        assert(w.contains(w[i]));
                    } else {
                        assert(w.contains(w[j]));
                    }
                }
            }
        }
    }
}

} // verus!
