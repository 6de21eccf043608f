//! The difference between the streams that run and the streams that should.

use crate::key_set::KeySet;
use crate::order::Keyed;
use crate::ordered_map;
use crate::source::SourceKey;
use vstd::prelude::*;

verus! {

/// The streams to start and to stop, each list in ascending order of
/// (context, namespace, pod, container, uid).
#[derive(Debug, PartialEq, Eq)]
pub struct ReconcileDiff {
    pub to_add: Vec<SourceKey>,
    pub to_drop: Vec<SourceKey>,
}

/// The keys of a list of streams.
pub open spec fn keys_of(list: Seq<SourceKey>) -> Seq<Seq<Seq<char>>> {
    list.map_values(|k: SourceKey| k.key())
}

/// Whether `list` holds each key of `set` exactly once and nothing else, in ascending order.
pub open spec fn lists_in_order(list: Seq<SourceKey>, set: Set<Seq<Seq<char>>>) -> bool {
    &&& ordered_map::strictly_ordered(keys_of(list))
    &&& forall|k: Seq<Seq<char>>| set.contains(k) <==> keys_of(list).contains(k)
}

/// The members of `of` that are not in `without`, in ascending order.
fn difference(of: &KeySet<SourceKey>, without: &KeySet<SourceKey>) -> (list: Vec<SourceKey>)
    requires
        of.wf(),
        without.wf(),
    ensures
        lists_in_order(list@, of@.difference(without@)),
{
    let mut list: Vec<SourceKey> = Vec::new();
    let n: usize = of.len();
    let mut i: usize = 0;
    proof {
        of.lemma_members();
    }
    let ghost mut places: Seq<int> = Seq::empty();
    while i < n
        invariant
            of.wf(),
            without.wf(),
            i <= n,
            n == of.members().len(),
            ordered_map::strictly_ordered(of.keys()),
            places.len() == list@.len(),
            forall|a: int| 0 <= a < places.len() ==> 0 <= #[trigger] places[a] < i,
            forall|a: int, b: int|
                0 <= a < b < places.len() ==> #[trigger] places[a] < #[trigger] places[b],
            forall|a: int| 0 <= a < places.len() ==> #[trigger] keys_of(list@)[a] == of.keys()[places[a]],
            forall|a: int| 0 <= a < list@.len() ==> !without@.contains(#[trigger] keys_of(list@)[a]),
            forall|j: int|
                0 <= j < i && !without@.contains(of.keys()[j]) ==> keys_of(list@).contains(
                    #[trigger] of.keys()[j],
                ),
        decreases n - i,
    {
        let key = of.at(i);
        let ghost earlier = keys_of(list@);
        if !without.contains(key) {
            list.push(key.clone());
            proof {
                places = places.push(i as int);
                assert(keys_of(list@) =~= earlier.push(of.keys()[i as int]));
                assert forall|j: int|
                    0 <= j < i + 1 && !without@.contains(of.keys()[j]) implies keys_of(list@).contains(
                    #[trigger] of.keys()[j],
                ) by {
                    if j < i {
                        let a = earlier.index_of(of.keys()[j]);
                        assert(keys_of(list@)[a] == of.keys()[j]);
                    } else {
                        assert(keys_of(list@)[earlier.len() as int] == of.keys()[j]);
                    }
                }
            }
        }
        i += 1;
    }
    proof {
        assert forall|a: int, b: int| 0 <= a < b < keys_of(list@).len() implies crate::order::before(
            #[trigger] keys_of(list@)[a],
            #[trigger] keys_of(list@)[b],
        ) by {
            assert(places[a] < places[b]);
        }
        of.lemma_members();
        assert forall|k: Seq<Seq<char>>|
            of@.difference(without@).contains(k) <==> keys_of(list@).contains(k) by {
            if of@.difference(without@).contains(k) {
                let j = of.keys().index_of(k);
                assert(of.keys()[j] == k);
            }
            if keys_of(list@).contains(k) {
                let a = keys_of(list@).index_of(k);
                assert(keys_of(list@)[a] == k);
                assert(of.keys()[places[a]] == k);
                assert(of.keys().contains(k));
            }
        }
    }
    list
}

/// What to start and what to stop so that the active streams become those of the snapshot.
pub fn reconcile(active: &KeySet<SourceKey>, snapshot: &KeySet<SourceKey>) -> (diff: ReconcileDiff)
    requires
        active.wf(),
        snapshot.wf(),
    ensures
        lists_in_order(diff.to_drop@, active@.difference(snapshot@)),
        lists_in_order(diff.to_add@, snapshot@.difference(active@)),
{
    ReconcileDiff { to_add: difference(snapshot, active), to_drop: difference(active, snapshot) }
}

/// Stopping what a diff drops and starting what it adds turns the active streams into those of
/// the snapshot.
pub proof fn law_diff_reaches_snapshot(
    active: Set<Seq<Seq<char>>>,
    snapshot: Set<Seq<Seq<char>>>,
    diff: ReconcileDiff,
)
    requires
        lists_in_order(diff.to_drop@, active.difference(snapshot)),
        lists_in_order(diff.to_add@, snapshot.difference(active)),
    ensures
        active.difference(keys_of(diff.to_drop@).to_set()).union(keys_of(diff.to_add@).to_set())
            == snapshot,
{
    let dropped = keys_of(diff.to_drop@).to_set();
    let added = keys_of(diff.to_add@).to_set();
    assert forall|k: Seq<Seq<char>>|
        active.difference(dropped).union(added).contains(k) <==> snapshot.contains(k) by {
        assert(active.difference(snapshot).contains(k) <==> keys_of(diff.to_drop@).contains(k));
        assert(snapshot.difference(active).contains(k) <==> keys_of(diff.to_add@).contains(k));
        assert(dropped.contains(k) <==> keys_of(diff.to_drop@).contains(k));
        assert(added.contains(k) <==> keys_of(diff.to_add@).contains(k));
    }
    assert(active.difference(dropped).union(added) =~= snapshot);
}

/// Equal sets need no change, and a set that needs none is equal.
pub proof fn law_diff_empty_iff_equal(
    active: Set<Seq<Seq<char>>>,
    snapshot: Set<Seq<Seq<char>>>,
    diff: ReconcileDiff,
)
    requires
        lists_in_order(diff.to_drop@, active.difference(snapshot)),
        lists_in_order(diff.to_add@, snapshot.difference(active)),
    ensures
        (diff.to_add@.len() == 0 && diff.to_drop@.len() == 0) <==> active == snapshot,
{
    if diff.to_add@.len() == 0 && diff.to_drop@.len() == 0 {
        assert forall|k: Seq<Seq<char>>| active.contains(k) <==> snapshot.contains(k) by {
            assert(active.difference(snapshot).contains(k) <==> keys_of(diff.to_drop@).contains(k));
            assert(snapshot.difference(active).contains(k) <==> keys_of(diff.to_add@).contains(k));
        }
        assert(active =~= snapshot);
    }
    if active == snapshot {
        if diff.to_add@.len() > 0 {
            let k = keys_of(diff.to_add@)[0];
            assert(keys_of(diff.to_add@).contains(k));
            assert(snapshot.difference(active).contains(k));
        }
        if diff.to_drop@.len() > 0 {
            let k = keys_of(diff.to_drop@)[0];
            assert(keys_of(diff.to_drop@).contains(k));
            assert(active.difference(snapshot).contains(k));
        }
    }
}

/// No stream is both started and stopped.
pub proof fn law_diff_disjoint(
    active: Set<Seq<Seq<char>>>,
    snapshot: Set<Seq<Seq<char>>>,
    diff: ReconcileDiff,
    k: Seq<Seq<char>>,
)
    requires
        lists_in_order(diff.to_drop@, active.difference(snapshot)),
        lists_in_order(diff.to_add@, snapshot.difference(active)),
    ensures
        !(keys_of(diff.to_drop@).contains(k) && keys_of(diff.to_add@).contains(k)),
{
    assert(active.difference(snapshot).contains(k) <==> keys_of(diff.to_drop@).contains(k));
    assert(snapshot.difference(active).contains(k) <==> keys_of(diff.to_add@).contains(k));
}

/// The streams of a list come in ascending order, so none comes twice.
pub proof fn law_list_is_in_order(list: Seq<SourceKey>, set: Set<Seq<Seq<char>>>, i: int, j: int)
    requires
        lists_in_order(list, set),
        0 <= i < j < list.len(),
    ensures
        crate::order::before(list[i].key(), list[j].key()),
        list[i].key() != list[j].key(),
        set.contains(list[i].key()),
{
    let keys = keys_of(list);
    assert(keys[i] == list[i].key() && keys[j] == list[j].key());
    assert(keys.contains(keys[i]));
    crate::order::lemma_fields_order_laws(keys[i], keys[j]);
}

/// The keys of a list come one for each stream, in their order.
pub proof fn law_keys_one_by_one(list: Seq<SourceKey>, i: int)
    requires
        0 <= i < list.len(),
    ensures
        keys_of(list).len() == list.len(),
        keys_of(list)[i] == seq![
            list[i].context.0@,
            list[i].namespace@,
            list[i].pod@,
            list[i].container@,
            list[i].uid@,
        ],
{
}

} // verus!
