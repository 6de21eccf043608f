//! Sorting of texts.

use crate::order;
use crate::order::Comparison;
use crate::text;
use vstd::prelude::*;

verus! {

/// `list` with `item` behind everything that is not greater.
pub open spec fn with_text(list: Seq<Seq<char>>, item: Seq<char>) -> Seq<Seq<char>>
    decreases list.len(),
{
    if list.len() > 0 && order::text_order(list.last(), item) == Comparison::Greater {
        with_text(list.drop_last(), item).push(list.last())
    } else {
        list.push(item)
    }
}

/// The texts of `list` in ascending order.
pub open spec fn sorted_texts(list: Seq<Seq<char>>) -> Seq<Seq<char>>
    decreases list.len(),
{
    if list.len() == 0 {
        Seq::empty()
    } else {
        with_text(sorted_texts(list.drop_last()), list.last())
    }
}

/// Whether no text is greater than a later one.
pub open spec fn ascending(list: Seq<Seq<char>>) -> bool {
    forall|i: int, j: int|
        0 <= i < j < list.len() ==> order::text_order(#[trigger] list[i], #[trigger] list[j])
            != Comparison::Greater
}

proof fn lemma_not_greater_chain(a: Seq<char>, b: Seq<char>, c: Seq<char>)
    requires
        order::text_order(a, b) != Comparison::Greater,
        order::text_order(b, c) != Comparison::Greater,
    ensures
        order::text_order(a, c) != Comparison::Greater,
{
    order::lemma_text_order_laws(a, b);
    order::lemma_text_order_laws(b, c);
    order::lemma_text_order_laws(a, c);
    if a != b && b != c {
        order::lemma_text_order_transitive(a, b, c);
    }
}

proof fn lemma_with_text(list: Seq<Seq<char>>, item: Seq<char>)
    requires
        ascending(list),
    ensures
        ascending(with_text(list, item)),
        with_text(list, item).to_multiset() == list.to_multiset().insert(item),
    decreases list.len(),
{
    broadcast use vstd::seq_lib::group_to_multiset_ensures;

    let all = with_text(list, item);
    if list.len() > 0 && order::text_order(list.last(), item) == Comparison::Greater {
        let rest = list.drop_last();
        let inner = with_text(rest, item);
        lemma_with_text(rest, item);
        assert(list =~= rest.push(list.last()));
        assert forall|i: int, j: int| 0 <= i < j < all.len() implies order::text_order(
            #[trigger] all[i],
            #[trigger] all[j],
        ) != Comparison::Greater by {
            if j == all.len() - 1 {
                assert(inner.to_multiset().contains(inner[i])) by {
                    inner.to_multiset_ensures();
                    assert(inner.contains(inner[i]));
                }
                assert(all[i] == inner[i]);
                if inner[i] == item {
                    order::lemma_text_order_laws(list.last(), item);
                } else {
                    assert(rest.to_multiset().count(inner[i]) > 0);
                    rest.to_multiset_ensures();
                    assert(rest.contains(inner[i]));
                    let k = rest.index_of(inner[i]);
                    assert(list[k] == inner[i]);
                    assert(list[list.len() - 1] == list.last());
                }
            }
        }
        assert(all.to_multiset() =~= list.to_multiset().insert(item));
    } else {
        assert forall|i: int, j: int| 0 <= i < j < all.len() implies order::text_order(
            #[trigger] all[i],
            #[trigger] all[j],
        ) != Comparison::Greater by {
            if j == all.len() - 1 && i < list.len() {
                if i < list.len() - 1 {
                    assert(order::text_order(list[i], list[list.len() - 1]) != Comparison::Greater);
                    lemma_not_greater_chain(list[i], list.last(), item);
                }
            }
        }
    }
}

/// Sorting keeps every text as often as it occurs, and puts none behind a smaller one.
pub proof fn law_sorted_texts(list: Seq<Seq<char>>)
    ensures
        ascending(sorted_texts(list)),
        forall|i: int, j: int|
            0 <= i < j < sorted_texts(list).len() ==> order::text_order(
                #[trigger] sorted_texts(list)[i],
                #[trigger] sorted_texts(list)[j],
            ) != Comparison::Greater,
        sorted_texts(list).to_multiset() == list.to_multiset(),
        sorted_texts(list).len() == list.len(),
    decreases list.len(),
{
    broadcast use vstd::seq_lib::group_to_multiset_ensures;

    if list.len() > 0 {
        law_sorted_texts(list.drop_last());
        lemma_with_text(sorted_texts(list.drop_last()), list.last());
        assert(list =~= list.drop_last().push(list.last()));
        assert(list.to_multiset() =~= list.drop_last().to_multiset().insert(list.last()));
    } else {
        assert(sorted_texts(list) =~= list);
    }
    assert(sorted_texts(list).len() == sorted_texts(list).to_multiset().len());
    assert(list.len() == list.to_multiset().len());
}

proof fn lemma_with_text_at(list: Seq<Seq<char>>, item: Seq<char>, at: int)
    requires
        0 <= at <= list.len(),
        at == 0 || order::text_order(list[at - 1], item) != Comparison::Greater,
        forall|j: int|
            at <= j < list.len() ==> order::text_order(#[trigger] list[j], item)
                == Comparison::Greater,
    ensures
        with_text(list, item) == list.insert(at, item),
    decreases list.len(),
{
    if at < list.len() {
        let rest = list.drop_last();
        assert(order::text_order(list[list.len() - 1], item) == Comparison::Greater);
        lemma_with_text_at(rest, item, at);
        assert(rest.insert(at, item).push(list.last()) =~= list.insert(at, item));
    } else {
        assert(list.push(item) =~= list.insert(at, item));
    }
}

fn is_greater(a: &str, b: &str) -> (greater: bool)
    ensures
        greater == (order::text_order(a@, b@) == Comparison::Greater),
{
    matches!(order::compare_texts(a, b), Comparison::Greater)
}

/// The texts of `list` in ascending order.
pub fn sort_texts(list: &Vec<String>) -> (sorted: Vec<String>)
    ensures
        text::texts(sorted@) == sorted_texts(text::texts(list@)),
{
    let ghost all = text::texts(list@);
    let mut sorted: Vec<String> = Vec::new();
    let mut i: usize = 0;
    assert(text::texts(sorted@) =~= sorted_texts(all.take(0)));
    while i < list.len()
        invariant
            i <= list.len(),
            all == text::texts(list@),
            text::texts(sorted@) == sorted_texts(all.take(i as int)),
        decreases list.len() - i,
    {
        let ghost before = text::texts(sorted@);
        let mut at: usize = sorted.len();
        while at > 0 && is_greater(sorted[at - 1].as_str(), list[i].as_str())
            invariant
                i < list.len(),
                at <= sorted.len(),
                before == text::texts(sorted@),
                forall|j: int|
                    at <= j < before.len() ==> order::text_order(#[trigger] before[j], list@[i as int]@)
                        == Comparison::Greater,
            decreases at,
        {
            assert(before[at - 1] == sorted@[at - 1]@);
            at -= 1;
        }
        assert(at > 0 ==> before[at - 1] == sorted@[at - 1]@);
        sorted.insert(at, list[i].clone());
        proof {
            lemma_with_text_at(before, list@[i as int]@, at as int);
            assert(text::texts(sorted@) =~= before.insert(at as int, list@[i as int]@));
            assert(all.take(i + 1).drop_last() =~= all.take(i as int));
        }
        i += 1;
    }
    assert(all.take(all.len() as int) =~= all);
    sorted
}

} // verus!
