//! The order in which a list of names is sorted: alphabetically, and equal names
//! as they stood.

use crate::text::{
    lemma_precedes_asymmetric, lemma_precedes_total, lemma_precedes_transitive, precedes,
};
use vstd::prelude::*;

verus! {

/// The name at `a` is sorted before the one at `b`.
pub open spec fn sorts_before(names: Seq<Seq<char>>, a: int, b: int) -> bool {
    precedes(names[a], names[b]) || (names[a] == names[b] && a < b)
}

/// `order` lists each position of a list of `len` elements once.
pub open spec fn is_arrangement(order: Seq<int>, len: nat) -> bool {
    &&& order.len() == len
    &&& order.no_duplicates()
    &&& forall|i: int| 0 <= i < order.len() ==> 0 <= #[trigger] order[i] < len
}

/// `order` lists the positions of `names` in sorted order.
pub open spec fn is_name_order(order: Seq<int>, names: Seq<Seq<char>>) -> bool {
    &&& is_arrangement(order, names.len())
    &&& forall|i: int, j: int|
        #![trigger order[i], order[j]]
        0 <= i < j < order.len() ==> sorts_before(names, order[i], order[j])
}

/// The positions of `names` in sorted order.
pub open spec fn name_order(names: Seq<Seq<char>>) -> Seq<int> {
    choose|order: Seq<int>| is_name_order(order, names)
}

proof fn lemma_sorts_before_asymmetric(names: Seq<Seq<char>>, a: int, b: int)
    ensures
        !(sorts_before(names, a, b) && sorts_before(names, b, a)),
{
    lemma_precedes_asymmetric(names[a], names[b]);
}

/// Each position occurs in an arrangement.
pub proof fn lemma_arrangement_covers(order: Seq<int>, len: nat, k: int)
    requires
        is_arrangement(order, len),
        0 <= k < len,
    ensures
        order.contains(k),
{
    let all = vstd::set_lib::set_int_range(0, len as int);
    vstd::set_lib::lemma_int_range(0, len as int);
    order.unique_seq_to_set();
    assert(order.to_set().subset_of(all)) by {
        assert forall|x: int| order.to_set().contains(x) implies all.contains(x) by {
            assert(order.contains(x));
            let i = choose|i: int| 0 <= i < order.len() && order[i] == x;
            assert(0 <= order[i] < len);
        }
    }
    vstd::set_lib::lemma_subset_equality(order.to_set(), all);
    assert(order.to_set().contains(k));
}

/// A list of names has one sorted order.
pub proof fn lemma_name_order_unique(a: Seq<int>, b: Seq<int>, names: Seq<Seq<char>>)
    requires
        is_name_order(a, names),
        is_name_order(b, names),
    ensures
        a == b,
{
    lemma_name_order_prefix(a, b, names, names.len() as int);
    assert(a =~= b);
}

proof fn lemma_name_order_prefix(a: Seq<int>, b: Seq<int>, names: Seq<Seq<char>>, n: int)
    requires
        is_name_order(a, names),
        is_name_order(b, names),
        0 <= n <= names.len(),
    ensures
        forall|i: int| 0 <= i < n ==> a[i] == b[i],
    decreases n,
{
    if n > 0 {
        let last = n - 1;
        lemma_name_order_prefix(a, b, names, last);
        if a[last] != b[last] {
            lemma_arrangement_covers(b, names.len(), a[last]);
            lemma_arrangement_covers(a, names.len(), b[last]);
            let i = choose|i: int| 0 <= i < b.len() && b[i] == a[last];
            let j = choose|j: int| 0 <= j < a.len() && a[j] == b[last];
            if i < last {
                assert(a[i] == a[last]);
            }
            if j < last {
                assert(b[j] == b[last]);
            }
            assert(sorts_before(names, b[last], b[i]));
            assert(sorts_before(names, a[last], a[j]));
            lemma_sorts_before_asymmetric(names, a[last], b[last]);
        }
    }
}

/// How many of the positions of `order`, from its start, are sorted before
/// position `k`.
spec fn slot(order: Seq<int>, names: Seq<Seq<char>>, k: int) -> int
    decreases order.len(),
{
    if order.len() == 0 {
        0
    } else if sorts_before(names, order.last(), k) {
        order.len() as int
    } else {
        slot(order.drop_last(), names, k)
    }
}

proof fn lemma_slot(order: Seq<int>, names: Seq<Seq<char>>, k: int)
    requires
        forall|i: int, j: int|
            #![trigger order[i], order[j]]
            0 <= i < j < order.len() ==> sorts_before(names, order[i], order[j]),
        forall|i: int| 0 <= i < order.len() ==> #[trigger] order[i] < k,
    ensures
        0 <= slot(order, names, k) <= order.len(),
        forall|i: int|
            0 <= i < slot(order, names, k) ==> sorts_before(names, #[trigger] order[i], k),
        forall|i: int|
            slot(order, names, k) <= i < order.len() ==> sorts_before(
                names,
                k,
                #[trigger] order[i],
            ),
    decreases order.len(),
{
    if order.len() > 0 {
        let last = order.last();
        if sorts_before(names, last, k) {
            assert forall|i: int| 0 <= i < order.len() implies sorts_before(
                names,
                #[trigger] order[i],
                k,
            ) by {
                if i < order.len() - 1 {
                    assert(sorts_before(names, order[i], order[order.len() - 1]));
                    if precedes(names[order[i]], names[last]) && precedes(names[last], names[k]) {
                        lemma_precedes_transitive(names[order[i]], names[last], names[k]);
                    }
                }
            }
        } else {
            lemma_precedes_total(names[last], names[k]);
            let rest = order.drop_last();
            assert(forall|i: int| 0 <= i < rest.len() ==> rest[i] == order[i]);
            lemma_slot(rest, names, k);
            assert forall|i: int| slot(order, names, k) <= i < order.len() implies sorts_before(
                names,
                k,
                #[trigger] order[i],
            ) by {
                if i < rest.len() {
                    assert(sorts_before(names, k, rest[i]));
                }
            }
            assert forall|i: int| 0 <= i < slot(order, names, k) implies sorts_before(
                names,
                #[trigger] order[i],
                k,
            ) by {
                assert(sorts_before(names, rest[i], k));
            }
        }
    }
}

/// Every list of names has a sorted order.
pub proof fn lemma_name_order_exists(names: Seq<Seq<char>>)
    ensures
        is_name_order(name_order(names), names),
    decreases names.len(),
{
    if names.len() == 0 {
        assert(is_name_order(Seq::<int>::empty(), names));
    } else {
        let rest = names.drop_last();
        let k = rest.len() as int;
        lemma_name_order_exists(rest);
        let order = name_order(rest);
        assert forall|i: int, j: int|
            #![trigger order[i], order[j]]
            0 <= i < j < order.len() implies sorts_before(names, order[i], order[j]) by {
            assert(sorts_before(rest, order[i], order[j]));
        }
        lemma_slot(order, names, k);
        let p = slot(order, names, k);
        let longer = order.insert(p, k);
        assert(forall|i: int| 0 <= i < p ==> longer[i] == order[i]);
        assert(forall|i: int| p < i < longer.len() ==> longer[i] == order[i - 1]);
        assert(longer[p] == k);
        assert forall|i: int, j: int| 0 <= i < longer.len() && 0 <= j < longer.len() && i
            != j implies longer[i] != longer[j] by {
            if i != p {
                let x = if i < p { i } else { i - 1 };
                assert(longer[i] == order[x] && 0 <= order[x] < k);
            }
            if j != p {
                let y = if j < p { j } else { j - 1 };
                assert(longer[j] == order[y] && 0 <= order[y] < k);
            }
        }
        assert forall|i: int| 0 <= i < longer.len() implies 0 <= #[trigger] longer[i]
            < names.len() by {
            if i != p {
                let x = if i < p { i } else { i - 1 };
                assert(longer[i] == order[x] && 0 <= order[x] < k);
            }
        }
        assert forall|i: int, j: int|
            #![trigger longer[i], longer[j]]
            0 <= i < j < longer.len() implies sorts_before(names, longer[i], longer[j]) by {
            if i != p && j != p {
                let x = if i < p { i } else { i - 1 };
                let y = if j < p { j } else { j - 1 };
                assert(sorts_before(names, order[x], order[y]));
            } else if i == p {
                assert(sorts_before(names, k, order[j - 1]));
            } else {
                assert(sorts_before(names, order[i], k));
            }
        }
        assert(is_name_order(longer, names));
    }
}

/// An order that sorts `names` is the sorted order.
pub proof fn lemma_is_name_order(order: Seq<int>, names: Seq<Seq<char>>)
    requires
        is_name_order(order, names),
    ensures
        order == name_order(names),
{
    lemma_name_order_exists(names);
    lemma_name_order_unique(order, name_order(names), names);
}

} // verus!
