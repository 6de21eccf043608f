//! Pods, as far as discovery and attach look at them.

use crate::discovery::pod_condition::PodCondition;
use crate::discovery::pod_reconcile;
use crate::order::Keyed;
use crate::source::{ContextName, Labels, SourceKey};
use crate::text;
use vstd::prelude::*;

verus! {

/// A pod of the cluster.
pub struct Pod {
    pub name: Option<String>,
    pub namespace: Option<String>,
    pub uid: Option<String>,
    pub labels: Option<Labels>,
    pub node_name: Option<String>,
    pub conditions: Option<Vec<PodCondition>>,
    /// The containers that have a log to read.
    pub containers: Vec<String>,
}

/// What the cluster reports of a container.
#[derive(Debug)]
pub struct ContainerStatus {
    pub name: String,
    pub running: bool,
}

/// The names of the containers that run, in their order.
pub open spec fn running_names(statuses: Seq<ContainerStatus>) -> Seq<Seq<char>>
    decreases statuses.len(),
{
    if statuses.len() == 0 {
        Seq::empty()
    } else if statuses.last().running {
        running_names(statuses.drop_last()).push(statuses.last().name@)
    } else {
        running_names(statuses.drop_last())
    }
}

/// The containers that have a log to read: those that run.
pub fn running_containers(statuses: &Vec<ContainerStatus>) -> (names: Vec<String>)
    ensures
        text::texts(names@) == running_names(statuses@),
{
    let mut names: Vec<String> = Vec::new();
    let mut i: usize = 0;
    assert(text::texts(names@) =~= running_names(statuses@.take(0)));
    while i < statuses.len()
        invariant
            i <= statuses@.len(),
            text::texts(names@) == running_names(statuses@.take(i as int)),
        decreases statuses@.len() - i,
    {
        assert(statuses@.take(i + 1).drop_last() =~= statuses@.take(i as int));
        if statuses[i].running {
            let ghost earlier = text::texts(names@);
            names.push(statuses[i].name.clone());
            assert(text::texts(names@) =~= earlier.push(statuses@[i as int].name@));
        }
        i += 1;
    }
    assert(statuses@.take(i as int) =~= statuses@);
    names
}

/// The characters of an optional text; none if it is missing.
pub open spec fn text_or_empty(text: Option<String>) -> Seq<char> {
    match text {
        Some(t) => t@,
        None => Seq::empty(),
    }
}

/// The characters of an optional text; none if it is missing.
pub fn str_or_empty(text: &Option<String>) -> (shown: &str)
    ensures
        shown@ == text_or_empty(*text),
{
    match text {
        Some(t) => t.as_str(),
        None => {
            proof {
                reveal_strlit("");
                assert(""@ =~= Seq::empty());
            }
            ""
        },
    }
}

impl Pod {
    /// The labels stand for a map.
    pub open spec fn wf(&self) -> bool {
        self.labels matches Some(labels) ==> labels.wf()
    }

    /// The labels, by name.
    pub open spec fn label_map(&self) -> Map<Seq<Seq<char>>, String> {
        match self.labels {
            Some(labels) => labels.0@,
            None => Map::empty(),
        }
    }

    /// The key of the pod in a context. Only a pod with a name and a uid has one.
    pub open spec fn locator(&self, context: Seq<char>) -> Option<Seq<Seq<char>>> {
        match (self.name, self.uid) {
            (Some(name), Some(uid)) => Some(
                seq![context, text_or_empty(self.namespace), name@, uid@],
            ),
            _ => None,
        }
    }

    /// The key of the log stream of a container in a context.
    pub open spec fn stream(&self, context: Seq<char>, container: Seq<char>) -> Seq<Seq<char>> {
        seq![
            context,
            text_or_empty(self.namespace),
            text_or_empty(self.name),
            container,
            text_or_empty(self.uid),
        ]
    }

    /// The keys of the log streams of the pod. Only a pod with a name and a uid has any.
    pub open spec fn streams(&self, context: Seq<char>) -> Seq<Seq<Seq<char>>> {
        if self.name is Some && self.uid is Some {
            Seq::new(self.containers@.len(), |i: int| self.stream(context, self.containers@[i]@))
        } else {
            Seq::empty()
        }
    }
}

/// The log streams of a pod: one a container.
pub fn keys_from_pod(pod: &Pod, context: &ContextName) -> (keys: Vec<SourceKey>)
    ensures
        pod_reconcile::keys_of(keys@) == pod.streams(context.0@),
{
    let mut keys: Vec<SourceKey> = Vec::new();
    let (name, uid) = match (&pod.name, &pod.uid) {
        (Some(name), Some(uid)) => (name, uid),
        _ => {
            assert(pod_reconcile::keys_of(keys@) =~= pod.streams(context.0@));
            return keys;
        },
    };
    let mut i: usize = 0;
    while i < pod.containers.len()
        invariant
            i <= pod.containers@.len(),
            pod.name == Some(*name),
            pod.uid == Some(*uid),
            pod_reconcile::keys_of(keys@) == pod.streams(context.0@).take(i as int),
        decreases pod.containers@.len() - i,
    {
        let key = SourceKey {
            context: context.clone(),
            namespace: str_or_empty(&pod.namespace).to_owned(),
            pod: name.clone(),
            container: pod.containers[i].clone(),
            uid: uid.clone(),
        };
        let ghost earlier = keys@;
        assert(key.key() =~= pod.streams(context.0@)[i as int]);
        keys.push(key);
        assert(pod_reconcile::keys_of(keys@) =~= pod_reconcile::keys_of(earlier).push(key.key()));
        assert(pod.streams(context.0@).take(i + 1) =~= pod.streams(context.0@).take(i as int).push(
            pod.streams(context.0@)[i as int],
        ));
        i += 1;
    }
    assert(pod.streams(context.0@).take(i as int) =~= pod.streams(context.0@));
    keys
}

/// A container has a log exactly if it runs, wherever in the list it stands; the order stays.
pub proof fn law_running_containers(
    before: Seq<ContainerStatus>,
    status: ContainerStatus,
    after: Seq<ContainerStatus>,
)
    ensures
        running_names(before.push(status) + after) == if status.running {
            running_names(before).push(status.name@) + running_names(after)
        } else {
            running_names(before) + running_names(after)
        },
    decreases after.len(),
{
    let all = before.push(status) + after;
    let head = if status.running {
        running_names(before).push(status.name@)
    } else {
        running_names(before)
    };
    if after.len() == 0 {
        assert(all.drop_last() =~= before);
        assert(all.last() == status);
        assert(head + running_names(after) =~= head);
    } else {
        let rest = after.drop_last();
        law_running_containers(before, status, rest);
        assert(all.drop_last() =~= before.push(status) + rest);
        assert(all.last() == after.last());
        assert(running_names(all) =~= head + running_names(after));
    }
}

/// A pod with a name and a uid has one stream for each of its containers, in their order: its context,
/// namespace, name, the container and the uid. A pod without a name or a uid has none.
pub proof fn law_one_stream_a_container(pod: Pod, context: Seq<char>)
    ensures
        pod.name is None || pod.uid is None ==> pod.streams(context).len() == 0,
        pod.name matches Some(name) ==> (pod.uid matches Some(uid) ==> {
            &&& pod.streams(context).len() == pod.containers@.len()
            &&& forall|i: int|
                0 <= i < pod.containers@.len() ==> #[trigger] pod.streams(context)[i] == seq![
                    context,
                    match pod.namespace {
                        Some(ns) => ns@,
                        None => Seq::empty(),
                    },
                    name@,
                    pod.containers@[i]@,
                    uid@,
                ]
        }),
{
}

/// A pod is told apart by its context, namespace, name and uid together.
pub proof fn law_pods_have_their_own_keys(a: Pod, b: Pod, context: Seq<char>, other: Seq<char>)
    requires
        a.name is Some,
        a.uid is Some,
        b.name is Some,
        b.uid is Some,
    ensures
        a.locator(context) is Some,
        a.locator(context) == b.locator(other) <==> context == other && text_or_empty(a.namespace)
            == text_or_empty(b.namespace) && a.name->0@ == b.name->0@ && a.uid->0@ == b.uid->0@,
{
    let x = a.locator(context)->0;
    let y = b.locator(other)->0;
    assert(x[0] == context && x[1] == text_or_empty(a.namespace) && x[2] == a.name->0@ && x[3]
        == a.uid->0@);
    assert(y[0] == other && y[1] == text_or_empty(b.namespace) && y[2] == b.name->0@ && y[3]
        == b.uid->0@);
    if context == other && text_or_empty(a.namespace) == text_or_empty(b.namespace) && a.name->0@
        == b.name->0@ && a.uid->0@ == b.uid->0@ {
        assert(x =~= y);
    }
}

} // verus!
