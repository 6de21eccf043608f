//! Defaults of the pod query and of the namespace scope.

use crate::discovery::context;
use crate::discovery::context::{ContextError, ContextSelector, Kubeconfig};
use crate::text;
use vstd::prelude::*;

verus! {

/// The query to use, if one was given or a selector implies one. A missing query becomes `.*`
/// where a label or field selector narrows the pods. An explicit `.` stays as it is, except that
/// with a field selector alone it becomes `.*` too.
pub open spec fn query_text(query: Option<&str>, selector: Option<&str>, field_selector: Option<&str>) -> Option<
    Seq<char>,
> {
    match query {
        Some(q) => if q@ == "."@ && selector is None && field_selector is Some {
            Some(".*"@)
        } else {
            Some(q@)
        },
        None => if selector is Some || field_selector is Some {
            Some(".*"@)
        } else {
            None
        },
    }
}

/// The query to use, if one was given or a selector implies one.
pub(crate) fn pod_query(query: Option<&str>, selector: Option<&str>, field_selector: Option<&str>) -> (chosen: Option<
    String,
>)
    ensures
        match query_text(query, selector, field_selector) {
            Some(q) => chosen matches Some(c) && c@ == q,
            None => chosen is None,
        },
{
    match query {
        Some(q) => if text::same(q, ".") && selector.is_none() && field_selector.is_some() {
            Some(".*".to_owned())
        } else {
            Some(q.to_owned())
        },
        None => if selector.is_some() || field_selector.is_some() {
            Some(".*".to_owned())
        } else {
            None
        },
    }
}

/// All comma-separated segments of all flags.
pub open spec fn segments(flags: Seq<Seq<char>>) -> Seq<Seq<char>>
    decreases flags.len(),
{
    if flags.len() == 0 {
        Seq::empty()
    } else {
        segments(flags.drop_last()) + text::parts(flags.last(), ',')
    }
}

/// The segments as names, each trimmed, without the empty ones and those that occurred before.
pub open spec fn distinct_names(list: Seq<Seq<char>>) -> Seq<Seq<char>>
    decreases list.len(),
{
    if list.len() == 0 {
        Seq::empty()
    } else {
        let before = distinct_names(list.drop_last());
        let name = text::trimmed(list.last());
        if name.len() == 0 || before.contains(name) {
            before
        } else {
            before.push(name)
        }
    }
}

/// The namespaces that the flags name.
pub open spec fn explicit_namespaces(flags: Seq<Seq<char>>) -> Seq<Seq<char>> {
    distinct_names(segments(flags))
}

fn holds_text(list: &Vec<String>, wanted: &str) -> (held: bool)
    ensures
        held == text::texts(list@).contains(wanted@),
{
    let mut i: usize = 0;
    while i < list.len()
        invariant
            i <= list.len(),
            forall|j: int| 0 <= j < i ==> #[trigger] text::texts(list@)[j] != wanted@,
        decreases list.len() - i,
    {
        assert(text::texts(list@)[i as int] == list@[i as int]@);
        if text::same(list[i].as_str(), wanted) {
            return true;
        }
        i += 1;
    }
    false
}

/// The namespaces that the flags name, each once, in the order of their first mention.
pub(crate) fn deduped_explicit_namespaces(flags: &[String]) -> (names: Vec<String>)
    ensures
        text::texts(names@) == explicit_namespaces(text::texts(flags@)),
{
    let ghost all = text::texts(flags@);
    let mut names: Vec<String> = Vec::new();
    let mut i: usize = 0;
    assert(text::texts(names@) =~= distinct_names(segments(all.take(0))));
    while i < flags.len()
        invariant
            i <= flags.len(),
            all == text::texts(flags@),
            text::texts(names@) == distinct_names(segments(all.take(i as int))),
        decreases flags.len() - i,
    {
        let list = text::split(flags[i].as_str(), ',');
        let ghost earlier = segments(all.take(i as int));
        let ghost here = text::parts(all[i as int], ',');
        proof {
            assert(all.take(i + 1).drop_last() == all.take(i as int));
            assert(all.take(i + 1).last() == all[i as int]);
        }
        let mut j: usize = 0;
        assert(earlier + here.take(0) =~= earlier);
        while j < list.len()
            invariant
                j <= list.len(),
                here == text::texts(list@),
                text::texts(names@) == distinct_names(earlier + here.take(j as int)),
            decreases list.len() - j,
        {
            let name = text::trim(list[j].as_str());
            proof {
                assert((earlier + here.take(j + 1)).drop_last() =~= earlier + here.take(j as int));
                assert((earlier + here.take(j + 1)).last() == list@[j as int]@);
            }
            if !name.is_empty() && !holds_text(&names, name) {
                let ghost before = text::texts(names@);
                names.push(name.to_owned());
                assert(text::texts(names@) =~= before.push(name@));
            }
            j += 1;
        }
        assert(here.take(here.len() as int) =~= here);
        i += 1;
    }
    assert(all.take(all.len() as int) =~= all);
    names
}

/// The namespace of the active context, once the kubeconfig was read.
pub(crate) fn context_namespaces(
    context: &ContextSelector,
    loaded: Result<Kubeconfig, ContextError>,
) -> (namespaces: Result<Vec<String>, ContextError>)
    ensures
        match loaded {
            Ok(cfg) => match namespaces {
                Ok(list) => list@.len() == 1 && context::is_default_namespace(
                    cfg,
                    *context,
                    Ok(list@[0]),
                ),
                Err(e) => context::is_default_namespace(cfg, *context, Err(e)),
            },
            Err(e) => namespaces == Err::<Vec<String>, ContextError>(e),
        },
{
    match loaded {
        Ok(cfg) => match context::default_namespace(&cfg, context) {
            Ok(ns) => {
                let mut list: Vec<String> = Vec::new();
                list.push(ns);
                Ok(list)
            },
            Err(e) => Err(e),
        },
        Err(e) => Err(e),
    }
}

/// The namespaces that flags name are distinct, trimmed and not empty.
pub proof fn law_explicit_namespaces_distinct(list: Seq<Seq<char>>)
    ensures
        distinct_names(list).no_duplicates(),
        forall|i: int|
            0 <= i < distinct_names(list).len() ==> {
                let name = #[trigger] distinct_names(list)[i];
                name.len() > 0 && text::trimmed(name) == name
            },
    decreases list.len(),
{
    if list.len() > 0 {
        law_explicit_namespaces_distinct(list.drop_last());
        text::lemma_trimmed_is_trimmed(list.last());
    }
}

/// A name is among the namespaces exactly where it is not empty and some segment spells it.
pub proof fn law_explicit_namespaces_complete(list: Seq<Seq<char>>, name: Seq<char>)
    ensures
        distinct_names(list).contains(name) <==> name.len() > 0 && exists|i: int|
            0 <= i < list.len() && text::trimmed(#[trigger] list[i]) == name,
    decreases list.len(),
{
    if list.len() > 0 {
        let rest = list.drop_last();
        let before = distinct_names(rest);
        let last = text::trimmed(list.last());
        law_explicit_namespaces_complete(rest, name);
        if distinct_names(list).contains(name) {
            let i = distinct_names(list).index_of(name);
            if i < before.len() {
                assert(before[i] == name);
                let j = choose|j: int| 0 <= j < rest.len() && text::trimmed(#[trigger] rest[j]) == name;
                assert(list[j] == rest[j]);
            } else {
                assert(text::trimmed(list[list.len() - 1]) == name);
            }
        }
        if name.len() > 0 && exists|i: int|
            0 <= i < list.len() && text::trimmed(#[trigger] list[i]) == name {
            let i = choose|i: int| 0 <= i < list.len() && text::trimmed(#[trigger] list[i]) == name;
            if i < rest.len() {
                assert(rest[i] == list[i]);
                assert(before.contains(name));
                let j = before.index_of(name);
                assert(distinct_names(list)[j] == name);
            } else if before.contains(name) {
                assert(distinct_names(list) == before);
            } else {
                assert(distinct_names(list)[before.len() as int] == name);
            }
        }
    }
}

/// Further segments only add names behind those that are already there.
pub proof fn law_explicit_namespaces_keep_order(list: Seq<Seq<char>>, further: Seq<Seq<char>>)
    ensures
        distinct_names(list).is_prefix_of(distinct_names(list + further)),
    decreases further.len(),
{
    if further.len() == 0 {
        assert(list + further =~= list);
    } else {
        law_explicit_namespaces_keep_order(list, further.drop_last());
        assert((list + further).drop_last() =~= list + further.drop_last());
    }
}

/// The segments of two lists of flags are those of the one and then those of the other, and a single
/// flag has its comma-separated parts.
pub proof fn law_segments_of_flags(a: Seq<Seq<char>>, b: Seq<Seq<char>>)
    ensures
        segments(a + b) == segments(a) + segments(b),
        a.len() == 1 ==> segments(a) == text::parts(a[0], ','),
    decreases b.len(),
{
    if a.len() == 1 {
        assert(segments(a.drop_last()) =~= Seq::<Seq<char>>::empty());
        assert(segments(a) =~= text::parts(a[0], ','));
    }
    if b.len() == 0 {
        assert(a + b =~= a);
        assert(segments(a) + segments(b) =~= segments(a));
    } else {
        let rest = b.drop_last();
        law_segments_of_flags(a, rest);
        assert((a + b).drop_last() =~= a + rest);
        assert((a + b).last() == b.last());
        assert(segments(a + b) =~= segments(a) + segments(b));
    }
}

proof fn lemma_segments_hold(flags: Seq<Seq<char>>, segment: Seq<char>)
    ensures
        segments(flags).contains(segment) <==> exists|i: int|
            0 <= i < flags.len() && text::parts(#[trigger] flags[i], ',').contains(segment),
    decreases flags.len(),
{
    let all = segments(flags);
    if flags.len() > 0 {
        let rest = flags.drop_last();
        let before = segments(rest);
        let here = text::parts(flags.last(), ',');
        lemma_segments_hold(rest, segment);
        if all.contains(segment) {
            let k = all.index_of(segment);
            if k < before.len() {
                assert(before[k] == segment);
                let i = choose|i: int|
                    0 <= i < rest.len() && text::parts(#[trigger] rest[i], ',').contains(segment);
                assert(flags[i] == rest[i]);
            } else {
                assert(here[k - before.len()] == segment);
                assert(text::parts(flags[flags.len() - 1], ',').contains(segment));
            }
        }
        if exists|i: int|
            0 <= i < flags.len() && text::parts(#[trigger] flags[i], ',').contains(segment) {
            let i = choose|i: int|
                0 <= i < flags.len() && text::parts(#[trigger] flags[i], ',').contains(segment);
            if i < rest.len() {
                assert(rest[i] == flags[i]);
                assert(before.contains(segment));
                assert(all[before.index_of(segment)] == segment);
            } else {
                assert(all[before.len() + here.index_of(segment)] == segment);
            }
        }
    }
}

/// A namespace is among those that the flags name exactly if some flag, at any position, has a
/// comma-separated segment that is its name once the white space around it is taken away.
pub proof fn law_every_flag_counts(flags: Seq<Seq<char>>, name: Seq<char>)
    ensures
        explicit_namespaces(flags).contains(name) <==> name.len() > 0 && exists|i: int, j: int|
            {
                &&& 0 <= i < flags.len()
                &&& 0 <= j < text::parts(flags[i], ',').len()
                &&& text::trimmed(#[trigger] text::parts(flags[i], ',')[j]) == name
            },
{
    let all = segments(flags);
    law_explicit_namespaces_complete(all, name);
    if explicit_namespaces(flags).contains(name) {
        let k = choose|k: int| 0 <= k < all.len() && text::trimmed(#[trigger] all[k]) == name;
        assert(all.contains(all[k]));
        lemma_segments_hold(flags, all[k]);
        let i = choose|i: int|
            0 <= i < flags.len() && text::parts(#[trigger] flags[i], ',').contains(all[k]);
        let j = text::parts(flags[i], ',').index_of(all[k]);
        assert(text::trimmed(text::parts(flags[i], ',')[j]) == name);
    }
    if name.len() > 0 && exists|i: int, j: int|
        {
            &&& 0 <= i < flags.len()
            &&& 0 <= j < text::parts(flags[i], ',').len()
            &&& text::trimmed(#[trigger] text::parts(flags[i], ',')[j]) == name
        } {
        let (i, j) = choose|i: int, j: int|
            {
                &&& 0 <= i < flags.len()
                &&& 0 <= j < text::parts(flags[i], ',').len()
                &&& text::trimmed(#[trigger] text::parts(flags[i], ',')[j]) == name
            };
        let segment = text::parts(flags[i], ',')[j];
        assert(text::parts(flags[i], ',').contains(segment));
        lemma_segments_hold(flags, segment);
        let k = all.index_of(segment);
        assert(text::trimmed(all[k]) == name);
    }
}

/// A query that was given is used as it stands, except for a lone dot with a field selector and no
/// label selector; without a query every pod is meant where a selector narrows them, and otherwise
/// there is none.
pub proof fn law_query_defaults(query: &str, selector: Option<&str>, field_selector: Option<&str>)
    ensures
        query@ != "."@ ==> query_text(Some(query), selector, field_selector) == Some(query@),
        selector is Some ==> query_text(Some(query), selector, field_selector) == Some(query@),
        field_selector is None ==> query_text(Some(query), selector, field_selector) == Some(query@),
        query@ == "."@ && selector is None && field_selector is Some ==> query_text(
            Some(query),
            selector,
            field_selector,
        ) == Some(".*"@),
        query_text(None, selector, field_selector) is None <==> selector is None
            && field_selector is None,
        query_text(None, selector, field_selector) matches Some(q) ==> q == ".*"@,
{
}

} // verus!
