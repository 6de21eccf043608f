//! Pod metadata carried separately from [`super::SourceKey`] identity.

use crate::discovery::pod::{str_or_empty, Pod};
use crate::order;
use crate::order::{Comparison, Keyed};
use crate::source::{ContextName, Labels, SourceKey};
use vstd::prelude::*;

verus! {

/// What a line shows of its pod besides the identity.
pub struct PodMetaSnapshot {
    pub node: Option<String>,
    pub labels: Labels,
}

impl PodMetaSnapshot {
    /// The labels stand for a map.
    pub open spec fn wf(&self) -> bool {
        self.labels.wf()
    }

    /// The node, and the labels by name.
    pub open spec fn shown(&self) -> (Option<String>, Map<Seq<Seq<char>>, String>) {
        (self.node, self.labels.0@)
    }

    /// A copy that shows the same.
    pub fn copied(&self) -> (copy: Self)
        requires
            self.wf(),
        ensures
            copy.wf(),
            copy.shown() == self.shown(),
    {
        PodMetaSnapshot { node: self.node.clone(), labels: self.labels.copied() }
    }
}

/// What the metadata of a pod shows.
pub open spec fn pod_shown(pod: Pod) -> (Option<String>, Map<Seq<Seq<char>>, String>) {
    (pod.node_name, pod.label_map())
}

/// What the metadata of a pod shows.
pub fn pod_meta_snapshot_from_pod(pod: &Pod) -> (snapshot: PodMetaSnapshot)
    requires
        pod.wf(),
    ensures
        snapshot.wf(),
        snapshot.shown() == pod_shown(*pod),
{
    let labels = match &pod.labels {
        Some(labels) => labels.copied(),
        None => Labels::default(),
    };
    PodMetaSnapshot { node: pod.node_name.clone(), labels }
}

impl Default for PodMetaSnapshot {
    fn default() -> (snapshot: Self)
        ensures
            snapshot.labels.wf(),
            snapshot.node is None,
            snapshot.labels.0@ == Map::<Seq<Seq<char>>, String>::empty(),
            snapshot.labels.0.items().len() == 0,
    {
        PodMetaSnapshot { node: None, labels: Labels::default() }
    }
}

/// The identity of one pod.
#[derive(Debug, PartialEq, Eq, Hash)]
pub struct PodLocator {
    pub context: ContextName,
    pub namespace: String,
    pub pod: String,
    pub uid: String,
}

impl Clone for PodLocator {
    fn clone(&self) -> (copy: Self)
        ensures
            copy == *self,
    {
        PodLocator {
            context: self.context.clone(),
            namespace: self.namespace.clone(),
            pod: self.pod.clone(),
            uid: self.uid.clone(),
        }
    }
}

impl Keyed for PodLocator {
    open spec fn key(&self) -> Seq<Seq<char>> {
        seq![self.context.0@, self.namespace@, self.pod@, self.uid@]
    }

    fn compare(&self, other: &Self) -> (order: Comparison) {
        proof {
            order::lemma_four_fields(self.key(), other.key());
        }
        let by_context = order::compare_texts(self.context.0.as_str(), other.context.0.as_str());
        if !by_context.is_equal() {
            return by_context;
        }
        let by_namespace = order::compare_texts(self.namespace.as_str(), other.namespace.as_str());
        if !by_namespace.is_equal() {
            return by_namespace;
        }
        let by_pod = order::compare_texts(self.pod.as_str(), other.pod.as_str());
        if !by_pod.is_equal() {
            return by_pod;
        }
        order::compare_texts(self.uid.as_str(), other.uid.as_str())
    }
}

/// The key of the pod that a stream key belongs to.
pub open spec fn locator_key(stream: Seq<Seq<char>>) -> Seq<Seq<char>> {
    seq![stream[0], stream[1], stream[2], stream[4]]
}

impl PodLocator {
    /// The pod that a stream belongs to.
    pub fn from_source_key(key: &SourceKey) -> (locator: Self)
        ensures
            locator.context == key.context,
            locator.namespace == key.namespace,
            locator.pod == key.pod,
            locator.uid == key.uid,
            locator.key() == locator_key(key.key()),
    {
        PodLocator {
            context: key.context.clone(),
            namespace: key.namespace.clone(),
            pod: key.pod.clone(),
            uid: key.uid.clone(),
        }
    }

    /// The pod that a context has; only one with a name and a uid can be located.
    pub fn try_from_pod(context: &ContextName, pod: &Pod) -> (locator: Option<Self>)
        ensures
            match locator {
                Some(l) => pod.locator(context.0@) == Some(l.key()),
                None => pod.locator(context.0@) is None,
            },
    {
        match (&pod.uid, &pod.name) {
            (Some(uid), Some(name)) => {
                let locator = PodLocator {
                    context: context.clone(),
                    namespace: str_or_empty(&pod.namespace).to_owned(),
                    pod: name.clone(),
                    uid: uid.clone(),
                };
                assert(pod.locator(context.0@)->Some_0 =~= locator.key());
                Some(locator)
            },
            _ => None,
        }
    }
}

/// The streams of a pod belong to that pod.
pub proof fn law_streams_belong_to_pod(pod: Pod, context: Seq<char>, i: int)
    requires
        0 <= i < pod.streams(context).len(),
    ensures
        pod.locator(context) == Some(locator_key(pod.streams(context)[i])),
{
    assert(locator_key(pod.streams(context)[i]) =~= pod.locator(context)->Some_0);
}

/// Two streams belong to the same pod exactly if all but the container is the same.
pub proof fn law_pod_of_a_stream(a: SourceKey, b: SourceKey)
    ensures
        locator_key(a.key()) == locator_key(b.key()) <==> a.context.0@ == b.context.0@
            && a.namespace@ == b.namespace@ && a.pod@ == b.pod@ && a.uid@ == b.uid@,
{
    let x = locator_key(a.key());
    let y = locator_key(b.key());
    assert(x[0] == a.context.0@ && x[1] == a.namespace@ && x[2] == a.pod@ && x[3] == a.uid@);
    assert(y[0] == b.context.0@ && y[1] == b.namespace@ && y[2] == b.pod@ && y[3] == b.uid@);
    if a.context.0@ == b.context.0@ && a.namespace@ == b.namespace@ && a.pod@ == b.pod@ && a.uid@
        == b.uid@ {
        assert(x =~= y);
    }
}

/// What is shown of a pod is the node that it runs on and each of its labels, and no other label.
pub proof fn law_pod_shows_node_and_labels(pod: Pod, name: Seq<char>)
    ensures
        pod_shown(pod).0 == pod.node_name,
        match pod.labels {
            Some(labels) => pod_shown(pod).1.contains_key(seq![name]) == labels.0@.contains_key(
                seq![name],
            ) && (labels.0@.contains_key(seq![name]) ==> pod_shown(pod).1[seq![name]]
                == labels.0@[seq![name]]),
            None => !pod_shown(pod).1.contains_key(seq![name]),
        },
{
}

} // verus!
