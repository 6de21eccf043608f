//! Pod label selectors of workloads, for `kind/name` queries.
//!
//! With all namespaces the selector is `app=<name>`; with several namespaces it is the one on which
//! all of them agree, or `app=<name>`.

use crate::discovery::resource;
use crate::discovery::resource::ResourceKind;
use crate::sorting;
use crate::source::Labels;
use crate::text;
use vstd::prelude::*;

verus! {

/// One `matchExpressions` entry.
#[derive(Debug)]
pub struct LabelSelectorRequirement {
    pub key: String,
    pub operator: String,
    pub values: Option<Vec<String>>,
}

/// A workload's label selector.
pub struct LabelSelector {
    pub match_labels: Option<Labels>,
    pub match_expressions: Option<Vec<LabelSelectorRequirement>>,
}

impl LabelSelector {
    /// The label list stands for a map.
    pub open spec fn wf(&self) -> bool {
        self.match_labels matches Some(labels) ==> labels.wf()
    }
}

/// Whether a label list that may be missing stands for a map.
pub open spec fn labels_wf(labels: Option<Labels>) -> bool {
    labels matches Some(l) ==> l.wf()
}

/// Each label as `name=value`, in the order of the names.
pub open spec fn label_pairs(labels: Labels) -> Seq<Seq<char>> {
    labels.0.items().map_values(|e: (String, String)| e.0@ + "="@ + e.1@)
}

/// What one expression says in a selector; nothing where it is not understood or has no values.
pub open spec fn fragment_text(req: LabelSelectorRequirement) -> Option<Seq<char>> {
    let listed = match req.values {
        Some(values) => if values@.len() > 0 {
            Some("("@ + text::joined(sorting::sorted_texts(text::texts(values@)), ","@) + ")"@)
        } else {
            None
        },
        None => None,
    };
    if req.operator@ == "In"@ {
        match listed {
            Some(list) => Some(req.key@ + " in "@ + list),
            None => None,
        }
    } else if req.operator@ == "NotIn"@ {
        match listed {
            Some(list) => Some(req.key@ + " notin "@ + list),
            None => None,
        }
    } else if req.operator@ == "Exists"@ {
        Some(req.key@)
    } else if req.operator@ == "DoesNotExist"@ {
        Some("!"@ + req.key@)
    } else {
        None
    }
}

/// What the expressions say, in their order.
pub open spec fn fragments(list: Seq<LabelSelectorRequirement>) -> Seq<Seq<char>>
    decreases list.len(),
{
    if list.len() == 0 {
        Seq::empty()
    } else {
        match fragment_text(list.last()) {
            Some(part) => fragments(list.drop_last()).push(part),
            None => fragments(list.drop_last()),
        }
    }
}

/// Everything a selector says. The labels of the pod template count only where the selector has
/// neither labels nor expressions.
pub open spec fn selector_parts(ls: LabelSelector, template_labels: Option<Labels>) -> Seq<
    Seq<char>,
> {
    let by_label = match ls.match_labels {
        Some(labels) => label_pairs(labels),
        None => Seq::empty(),
    };
    let by_expression = match ls.match_expressions {
        Some(list) => fragments(list@),
        None => Seq::empty(),
    };
    let nothing_to_match = (ls.match_labels matches Some(labels) ==> labels.0.items().len() == 0) && (
    ls.match_expressions matches Some(list) ==> list@.len() == 0);
    if nothing_to_match && template_labels is Some {
        label_pairs(template_labels->0)
    } else {
        by_label + by_expression
    }
}

/// The selector string of a workload: its parts in ascending order, or `app=<name>` without any.
pub open spec fn meta_selector(ls: LabelSelector, template_labels: Option<Labels>, name: Seq<char>) -> Seq<
    char,
> {
    let all = selector_parts(ls, template_labels);
    if all.len() == 0 {
        "app="@ + name
    } else {
        text::joined(sorting::sorted_texts(all), ","@)
    }
}

/// Appends each label as `name=value` to `list`.
fn push_label_pairs(list: &mut Vec<String>, labels: &Labels)
    requires
        labels.wf(),
    ensures
        text::texts(final(list)@) == text::texts(old(list)@) + label_pairs(*labels),
{
    let ghost before = text::texts(list@);
    let n: usize = labels.0.len();
    let mut i: usize = 0;
    assert(before + label_pairs(*labels).take(0) =~= before);
    while i < n
        invariant
            labels.wf(),
            i <= n,
            n == labels.0.items().len(),
            text::texts(list@) == before + label_pairs(*labels).take(i as int),
        decreases n - i,
    {
        let entry = labels.0.entry(i);
        let pair = entry.0.clone().concat("=").concat(entry.1.as_str());
        let ghost earlier = text::texts(list@);
        list.push(pair);
        proof {
            assert(text::texts(list@) =~= earlier.push(pair@));
            assert(label_pairs(*labels)[i as int] == pair@);
            assert(label_pairs(*labels).take(i + 1) =~= label_pairs(*labels).take(i as int).push(
                pair@,
            ));
        }
        i += 1;
    }
    assert(label_pairs(*labels).take(n as int) =~= label_pairs(*labels));
}

/// Build a label selector string from workload label pairs, in the order of the names.
pub fn btree_to_label_selector(labels: &Labels) -> (selector: String)
    requires
        labels.wf(),
    ensures
        selector@ == text::joined(label_pairs(*labels), ","@),
{
    let mut pairs: Vec<String> = Vec::new();
    push_label_pairs(&mut pairs, labels);
    assert(text::texts(pairs@) =~= label_pairs(*labels));
    text::join(&pairs, ",")
}

/// The selector that stands in for a workload that names no labels.
fn fallback_app_selector(workload_name: &str) -> (selector: String)
    ensures
        selector@ == "app="@ + workload_name@,
{
    "app=".to_owned().concat(workload_name)
}

/// What one expression says in a selector.
pub fn match_expression_fragment(req: &LabelSelectorRequirement) -> (fragment: Option<String>)
    ensures
        match fragment {
            Some(f) => fragment_text(*req) == Some(f@),
            None => fragment_text(*req) is None,
        },
{
    let is_in = text::same(req.operator.as_str(), "In");
    if is_in || text::same(req.operator.as_str(), "NotIn") {
        let op = if is_in {
            " in "
        } else {
            " notin "
        };
        return match &req.values {
            Some(values) => if values.len() > 0 {
                let sorted = sorting::sort_texts(values);
                let list = "(".to_owned().concat(text::join(&sorted, ",").as_str()).concat(")");
                Some(req.key.clone().concat(op).concat(list.as_str()))
            } else {
                None
            },
            None => None,
        };
    }
    if text::same(req.operator.as_str(), "Exists") {
        Some(req.key.clone())
    } else if text::same(req.operator.as_str(), "DoesNotExist") {
        Some("!".to_owned().concat(req.key.as_str()))
    } else {
        None
    }
}

fn push_fragments(list: &mut Vec<String>, exprs: &Vec<LabelSelectorRequirement>)
    ensures
        text::texts(final(list)@) == text::texts(old(list)@) + fragments(exprs@),
{
    let ghost before = text::texts(list@);
    let mut i: usize = 0;
    assert(before + fragments(exprs@.take(0)) =~= before);
    while i < exprs.len()
        invariant
            i <= exprs.len(),
            text::texts(list@) == before + fragments(exprs@.take(i as int)),
        decreases exprs.len() - i,
    {
        let ghost earlier = text::texts(list@);
        assert(exprs@.take(i + 1).drop_last() =~= exprs@.take(i as int));
        match match_expression_fragment(&exprs[i]) {
            Some(f) => {
                list.push(f);
                proof {
                    assert(text::texts(list@) =~= earlier.push(f@));
                    assert((before + fragments(exprs@.take(i as int))).push(f@) =~= before
                        + fragments(exprs@.take(i as int)).push(f@));
                }
            },
            None => {},
        }
        i += 1;
    }
    assert(exprs@.take(exprs@.len() as int) =~= exprs@);
}

/// The selector string of a workload with this selector and these pod template labels.
pub fn label_selector_from_meta(
    ls: &LabelSelector,
    template_labels: Option<&Labels>,
    workload_name: &str,
) -> (selector: String)
    requires
        ls.wf(),
        template_labels matches Some(l) ==> l.wf(),
    ensures
        selector@ == meta_selector(
            *ls,
            match template_labels {
                Some(l) => Some(*l),
                None => None,
            },
            workload_name@,
        ),
{
    let ghost template = match template_labels {
        Some(l) => Some(*l),
        None => None,
    };
    let mut parts: Vec<String> = Vec::new();
    let mut nothing_to_match = true;
    match &ls.match_labels {
        Some(labels) => {
            nothing_to_match = labels.0.len() == 0;
            push_label_pairs(&mut parts, labels);
        },
        None => {},
    }
    let ghost by_label = text::texts(parts@);
    assert(by_label =~= match ls.match_labels {
        Some(labels) => label_pairs(labels),
        None => Seq::empty(),
    });
    match &ls.match_expressions {
        Some(exprs) => {
            nothing_to_match = nothing_to_match && exprs.len() == 0;
            push_fragments(&mut parts, exprs);
        },
        None => {},
    }
    proof {
        if ls.match_expressions is None {
            assert(by_label + Seq::<Seq<char>>::empty() =~= by_label);
        }
    }
    if nothing_to_match {
        assert(text::texts(parts@) =~= Seq::<Seq<char>>::empty());
        match template_labels {
            Some(labels) => {
                push_label_pairs(&mut parts, labels);
                assert(text::texts(parts@) =~= label_pairs(*labels));
            },
            None => {},
        }
    }
    assert(text::texts(parts@) == selector_parts(*ls, template));
    assert(text::texts(parts@).len() == parts@.len());
    if parts.len() == 0 {
        return fallback_app_selector(workload_name);
    }
    let sorted = sorting::sort_texts(&parts);
    text::join(&sorted, ",")
}

/// What the `spec` of a deployment, stateful set, daemon set or replica set says of its pods.
pub struct WorkloadSpec {
    pub selector: LabelSelector,
    pub template_labels: Option<Labels>,
}

/// What the `spec` of a job says of its pods.
pub struct JobSpec {
    pub selector: Option<LabelSelector>,
    pub template_labels: Option<Labels>,
}

/// What the `spec` of a replication controller says of its pods.
pub struct ControllerSpec {
    pub selector: Option<Labels>,
    pub template_labels: Option<Labels>,
}

/// A workload as the API server gave it, as far as its pods go.
pub enum Workload {
    Deployment(Option<WorkloadSpec>),
    StatefulSet(Option<WorkloadSpec>),
    DaemonSet(Option<WorkloadSpec>),
    ReplicaSet(Option<WorkloadSpec>),
    Job(Option<JobSpec>),
    Service(Option<Labels>),
    ReplicationController(Option<ControllerSpec>),
}

impl Workload {
    /// The label lists stand for maps.
    pub open spec fn wf(&self) -> bool {
        match self {
            Workload::Deployment(Some(spec)) | Workload::StatefulSet(Some(spec))
            | Workload::DaemonSet(Some(spec)) | Workload::ReplicaSet(Some(spec)) => {
                spec.selector.wf() && labels_wf(spec.template_labels)
            },
            Workload::Job(Some(spec)) => {
                &&& spec.selector matches Some(ls) ==> ls.wf()
                &&& labels_wf(spec.template_labels)
            },
            Workload::Service(selector) => labels_wf(*selector),
            Workload::ReplicationController(Some(spec)) => labels_wf(spec.selector) && labels_wf(
                spec.template_labels,
            ),
            _ => true,
        }
    }

    /// The label selector of the workload's pods.
    pub open spec fn selector(&self, name: Seq<char>) -> Seq<char> {
        match self {
            Workload::Deployment(spec) | Workload::StatefulSet(spec) | Workload::DaemonSet(spec)
            | Workload::ReplicaSet(spec) => match spec {
                Some(s) => meta_selector(s.selector, s.template_labels, name),
                None => "app="@ + name,
            },
            Workload::Job(spec) => match spec {
                Some(s) => match s.selector {
                    Some(ls) => meta_selector(ls, s.template_labels, name),
                    None => "app="@ + name,
                },
                None => "app="@ + name,
            },
            Workload::Service(selector) => plain_selector(*selector, None, name),
            Workload::ReplicationController(spec) => match spec {
                Some(s) => plain_selector(s.selector, s.template_labels, name),
                None => "app="@ + name,
            },
        }
    }
}

/// Whether there is a label list that is not empty.
pub open spec fn has_labels(labels: Option<Labels>) -> bool {
    match labels {
        Some(l) => l.0.items().len() > 0,
        None => false,
    }
}

/// The labels of a plain selector, those of the pod template in their stead where it has none, or
/// `app=<name>`.
pub open spec fn plain_selector(
    selector: Option<Labels>,
    template_labels: Option<Labels>,
    name: Seq<char>,
) -> Seq<char> {
    if has_labels(selector) {
        text::joined(label_pairs(selector->0), ","@)
    } else if has_labels(template_labels) {
        text::joined(label_pairs(template_labels->0), ","@)
    } else {
        "app="@ + name
    }
}

/// The selector of a workload whose `spec` always has one.
fn set_selector(spec: &Option<WorkloadSpec>, kind: ResourceKind, name: &str) -> (selector: String)
    requires
        kind != ResourceKind::Pod,
        spec matches Some(s) ==> s.selector.wf() && labels_wf(s.template_labels),
    ensures
        selector@ == match spec {
            Some(s) => meta_selector(s.selector, s.template_labels, name@),
            None => "app="@ + name@,
        },
{
    match spec {
        Some(s) => label_selector_from_meta(&s.selector, s.template_labels.as_ref(), name),
        None => resource::label_selector_for(kind, name),
    }
}

/// The selector of a job, which may have none of its own.
fn job_selector(spec: &Option<JobSpec>, name: &str) -> (selector: String)
    requires
        spec matches Some(s) ==> labels_wf(s.template_labels) && (s.selector matches Some(ls)
            ==> ls.wf()),
    ensures
        selector@ == Workload::Job(*spec).selector(name@),
{
    match spec {
        Some(s) => match &s.selector {
            Some(ls) => label_selector_from_meta(ls, s.template_labels.as_ref(), name),
            None => resource::label_selector_for(ResourceKind::Job, name),
        },
        None => resource::label_selector_for(ResourceKind::Job, name),
    }
}

/// The selector of a service.
fn service_selector(labels: &Option<Labels>, name: &str) -> (selector: String)
    requires
        labels_wf(*labels),
    ensures
        selector@ == Workload::Service(*labels).selector(name@),
{
    match labels {
        Some(l) => if l.0.len() > 0 {
            btree_to_label_selector(l)
        } else {
            resource::label_selector_for(ResourceKind::Service, name)
        },
        None => resource::label_selector_for(ResourceKind::Service, name),
    }
}

/// The selector of a replication controller.
fn replication_controller_selector(spec: &Option<ControllerSpec>, name: &str) -> (selector: String)
    requires
        spec matches Some(s) ==> labels_wf(s.selector) && labels_wf(s.template_labels),
    ensures
        selector@ == Workload::ReplicationController(*spec).selector(name@),
{
    let s = match spec {
        Some(s) => s,
        None => {
            return resource::label_selector_for(ResourceKind::ReplicationController, name);
        },
    };
    match &s.selector {
        Some(l) => {
            if l.0.len() > 0 {
                return btree_to_label_selector(l);
            }
        },
        None => {},
    }
    match &s.template_labels {
        Some(l) => if l.0.len() > 0 {
            btree_to_label_selector(l)
        } else {
            resource::label_selector_for(ResourceKind::ReplicationController, name)
        },
        None => resource::label_selector_for(ResourceKind::ReplicationController, name),
    }
}

/// The label selector of a workload's pods.
pub fn workload_label_selector(workload: &Workload, name: &str) -> (selector: String)
    requires
        workload.wf(),
    ensures
        selector@ == workload.selector(name@),
{
    match workload {
        Workload::Deployment(spec) => set_selector(spec, ResourceKind::Deployment, name),
        Workload::StatefulSet(spec) => set_selector(spec, ResourceKind::StatefulSet, name),
        Workload::DaemonSet(spec) => set_selector(spec, ResourceKind::DaemonSet, name),
        Workload::ReplicaSet(spec) => set_selector(spec, ResourceKind::ReplicaSet, name),
        Workload::Job(spec) => job_selector(spec, name),
        Workload::Service(labels) => service_selector(labels, name),
        Workload::ReplicationController(spec) => replication_controller_selector(spec, name),
    }
}

/// Whether a `kind/name` query has to ask the API server for the workload.
pub open spec fn asks_for_workload(kind: ResourceKind, single_namespace: bool) -> bool {
    kind != ResourceKind::Pod && single_namespace
}

/// Resolve a `kind/name` query in one namespace. `fetched` is what the API server gave for the
/// workload, or what it said instead; without a namespace, and for a pod, it does not count.
pub fn resolve_label_selector_for_kind_query(
    kind: ResourceKind,
    name: &str,
    single_namespace: Option<&str>,
    fetched: Result<Workload, String>,
) -> (selector: Result<String, String>)
    requires
        fetched matches Ok(w) ==> w.wf(),
    ensures
        if asks_for_workload(kind, single_namespace is Some) {
            match fetched {
                Ok(w) => selector matches Ok(s) && s@ == w.selector(name@),
                Err(e) => selector == Err::<String, String>(e),
            }
        } else {
            selector matches Ok(s) && s@ == resource::selector_text(kind, name@)
        },
{
    match kind {
        ResourceKind::Pod => {
            return Ok(resource::label_selector_for(kind, name));
        },
        _ => {},
    }
    if single_namespace.is_none() {
        return Ok(resource::label_selector_for(kind, name));
    }
    match fetched {
        Ok(w) => Ok(workload_label_selector(&w, name)),
        Err(e) => Err(e),
    }
}

/// The selector on which all agree, or the one that stands in for `kind/name`.
pub open spec fn agreed_selector(selectors: Seq<Seq<char>>, kind: ResourceKind, name: Seq<char>) -> Seq<
    char,
> {
    if selectors.len() > 0 && forall|i: int|
        0 <= i < selectors.len() ==> #[trigger] selectors[i] == selectors[0] {
        selectors[0]
    } else {
        resource::selector_text(kind, name)
    }
}

/// When every namespace yields the same selector, use it; otherwise fall back to the selector that
/// stands in for `kind/name`.
pub fn unify_label_selectors(selectors: &[String], kind: ResourceKind, name: &str) -> (selector: String)
    ensures
        selector@ == agreed_selector(text::texts(selectors@), kind, name@),
{
    if selectors.len() == 0 {
        return resource::label_selector_for(kind, name);
    }
    let ghost all = text::texts(selectors@);
    let mut i: usize = 1;
    while i < selectors.len()
        invariant
            1 <= i <= selectors.len(),
            all == text::texts(selectors@),
            forall|j: int| 0 <= j < i ==> #[trigger] all[j] == all[0],
        decreases selectors.len() - i,
    {
        assert(all[i as int] == selectors@[i as int]@);
        assert(all[0] == selectors@[0]@);
        if !text::same(selectors[i].as_str(), selectors[0].as_str()) {
            return resource::label_selector_for(kind, name);
        }
        i += 1;
    }
    selectors[0].clone()
}

/// How many namespaces have to be asked for the workload, one after the other until one fails.
pub fn namespaces_to_ask(kind: ResourceKind, namespaces: &[String], all_namespaces: bool) -> (n: usize)
    ensures
        n == if kind == ResourceKind::Pod || all_namespaces {
            0
        } else {
            namespaces@.len()
        },
{
    match kind {
        ResourceKind::Pod => 0,
        _ => if all_namespaces {
            0
        } else {
            namespaces.len()
        },
    }
}

/// The selectors among the replies.
pub open spec fn reply_texts(replies: Seq<Result<String, String>>) -> Seq<Seq<char>> {
    replies.map_values(
        |r: Result<String, String>|
            match r {
                Ok(s) => s@,
                Err(_) => Seq::empty(),
            },
    )
}

/// Whether `selector` is what a `kind/name` query comes to, where asking the namespaces one after
/// the other gave `replies`. A single namespace has the say; several have to agree, and one that
/// failed counts as disagreement.
pub open spec fn is_namespaces_selector(
    kind: ResourceKind,
    name: Seq<char>,
    namespaces: nat,
    all_namespaces: bool,
    replies: Seq<Result<String, String>>,
    selector: Result<String, String>,
) -> bool {
    if kind == ResourceKind::Pod || all_namespaces || namespaces == 0 {
        selector matches Ok(s) && s@ == resource::selector_text(kind, name)
    } else if namespaces == 1 && replies.len() > 0 {
        match replies[0] {
            Ok(r) => selector matches Ok(s) && s@ == r@,
            Err(e) => selector == Err::<String, String>(e),
        }
    } else if exists|i: int| 0 <= i < replies.len() && (#[trigger] replies[i]) is Err {
        selector matches Ok(s) && s@ == resource::selector_text(kind, name)
    } else {
        selector matches Ok(s) && s@ == agreed_selector(reply_texts(replies), kind, name)
    }
}

/// Resolve a `kind/name` query to one list/watch label selector for the given namespace scope.
/// `replies` are the selectors that asking the namespaces one after the other gave.
pub fn resolve_label_selector_for_namespaces(
    kind: ResourceKind,
    name: &str,
    namespaces: &[String],
    all_namespaces: bool,
    replies: Vec<Result<String, String>>,
) -> (selector: Result<String, String>)
    ensures
        is_namespaces_selector(
            kind,
            name@,
            namespaces@.len(),
            all_namespaces,
            replies@,
            selector,
        ),
{
    if namespaces_to_ask(kind, namespaces, all_namespaces) == 0 {
        return Ok(resource::label_selector_for(kind, name));
    }
    if namespaces.len() == 1 && replies.len() > 0 {
        return match &replies[0] {
            Ok(s) => Ok(s.clone()),
            Err(e) => Err(e.clone()),
        };
    }
    let mut selectors: Vec<String> = Vec::new();
    let mut i: usize = 0;
    while i < replies.len()
        invariant
            i <= replies.len(),
            namespaces@.len() != 1 || replies@.len() == 0,
            !(kind == ResourceKind::Pod || all_namespaces || namespaces@.len() == 0),
            forall|j: int| 0 <= j < i ==> (#[trigger] replies@[j]) is Ok,
            text::texts(selectors@) == reply_texts(replies@).take(i as int),
        decreases replies.len() - i,
    {
        match &replies[i] {
            Ok(s) => {
                let ghost earlier = text::texts(selectors@);
                selectors.push(s.clone());
                proof {
                    assert(text::texts(selectors@) =~= earlier.push(s@));
                    assert(reply_texts(replies@)[i as int] == s@);
                    assert(reply_texts(replies@).take(i + 1) =~= reply_texts(replies@).take(
                        i as int,
                    ).push(s@));
                }
            },
            Err(_) => {
                assert(replies@[i as int] is Err);
                return Ok(resource::label_selector_for(kind, name));
            },
        }
        i += 1;
    }
    assert(reply_texts(replies@).take(replies@.len() as int) =~= reply_texts(replies@));
    Ok(unify_label_selectors(selectors.as_slice(), kind, name))
}

/// A selector that every namespace yields is the one that is used.
pub proof fn law_agreement_is_the_selector(selector: Seq<char>, n: nat, kind: ResourceKind, name: Seq<char>)
    requires
        n > 0,
    ensures
        agreed_selector(Seq::new(n, |i: int| selector), kind, name) == selector,
{
    let all = Seq::new(n, |i: int| selector);
    assert(all[0] == selector);
}

/// Two different selectors make every list that holds both fall back.
pub proof fn law_disagreement_falls_back(
    selectors: Seq<Seq<char>>,
    i: int,
    j: int,
    kind: ResourceKind,
    name: Seq<char>,
)
    requires
        0 <= i < selectors.len(),
        0 <= j < selectors.len(),
        selectors[i] != selectors[j],
    ensures
        agreed_selector(selectors, kind, name) == resource::selector_text(kind, name),
{
    assert(selectors[i] != selectors[0] || selectors[j] != selectors[0]);
}


/// A service whose selector holds a label is selected by exactly its labels: the parts of the
/// selector are the `name=value` of each of them, one for each and no other.
pub proof fn law_service_is_selected_by_its_labels(labels: Labels, name: Seq<char>)
    requires
        labels.0.items().len() > 0,
    ensures
        exists|parts: Seq<Seq<char>>|
            {
                &&& Workload::Service(Some(labels)).selector(name) == #[trigger] text::joined(
                    parts,
                    ","@,
                )
                &&& parts.len() == labels.0.items().len()
                &&& forall|i: int|
                    0 <= i < parts.len() ==> #[trigger] parts[i] == labels.0.items()[i].0@ + "="@
                        + labels.0.items()[i].1@
            },
{
    let parts = label_pairs(labels);
    assert(Workload::Service(Some(labels)).selector(name) == text::joined(parts, ","@));
}

/// A service is selected by `app=` and its name only where its selector has no label.
pub proof fn law_service_without_labels(selector: Option<Labels>, name: Seq<char>)
    requires
        selector matches Some(labels) ==> labels.0.items().len() == 0,
    ensures
        Workload::Service(selector).selector(name) == "app="@ + name,
{
}

/// A replication controller is selected by exactly the labels of its selector; where that has none,
/// by those of its pod template; and by `app=` and its name where there are none either.
pub proof fn law_controller_is_selected_by_its_labels(
    spec: ControllerSpec,
    labels: Labels,
    name: Seq<char>,
)
    requires
        labels.0.items().len() > 0,
        spec.selector == Some(labels) || (!has_labels(spec.selector) && spec.template_labels == Some(
            labels,
        )),
    ensures
        exists|parts: Seq<Seq<char>>|
            {
                &&& Workload::ReplicationController(Some(spec)).selector(name)
                    == #[trigger] text::joined(parts, ","@)
                &&& parts.len() == labels.0.items().len()
                &&& forall|i: int|
                    0 <= i < parts.len() ==> #[trigger] parts[i] == labels.0.items()[i].0@ + "="@
                        + labels.0.items()[i].1@
            },
{
    let parts = label_pairs(labels);
    assert(Workload::ReplicationController(Some(spec)).selector(name) == text::joined(parts, ","@));
}

/// A replication controller that names no label is selected by `app=` and its name.
pub proof fn law_controller_without_labels(spec: ControllerSpec, name: Seq<char>)
    requires
        spec.selector matches Some(labels) ==> labels.0.items().len() == 0,
        spec.template_labels matches Some(labels) ==> labels.0.items().len() == 0,
    ensures
        Workload::ReplicationController(Some(spec)).selector(name) == "app="@ + name,
        Workload::ReplicationController(None).selector(name) == "app="@ + name,
{
}

/// The deployment, the stateful set, the daemon set and the replica set with the same `spec` have the
/// same selector, and so has a job that has a selector of its own. Without a `spec`, or for a job
/// without a selector, it is `app=` and the name.
pub proof fn law_workload_kinds_are_alike(spec: WorkloadSpec, name: Seq<char>)
    ensures
        ({
            let selector = Workload::Deployment(Some(spec)).selector(name);
            let job = JobSpec { selector: Some(spec.selector), template_labels: spec.template_labels };
            &&& Workload::StatefulSet(Some(spec)).selector(name) == selector
            &&& Workload::DaemonSet(Some(spec)).selector(name) == selector
            &&& Workload::ReplicaSet(Some(spec)).selector(name) == selector
            &&& Workload::Job(Some(job)).selector(name) == selector
        }),
        Workload::Deployment(None).selector(name) == "app="@ + name,
        Workload::StatefulSet(None).selector(name) == "app="@ + name,
        Workload::DaemonSet(None).selector(name) == "app="@ + name,
        Workload::ReplicaSet(None).selector(name) == "app="@ + name,
        Workload::Job(None).selector(name) == "app="@ + name,
        Workload::Job(
            Some(JobSpec { selector: None, template_labels: spec.template_labels }),
        ).selector(name) == "app="@ + name,
{
}

/// Whether `part` is the `name=value` of one of these labels.
pub open spec fn is_label_of(labels: Labels, part: Seq<char>) -> bool {
    exists|i: int|
        0 <= i < labels.0.items().len() && part == (#[trigger] labels.0.items()[i]).0@ + "="@
            + labels.0.items()[i].1@
}

/// Whether `part` is the `name=value` of one of the labels, where there are any.
pub open spec fn says_label(labels: Option<Labels>, part: Seq<char>) -> bool {
    match labels {
        Some(l) => is_label_of(l, part),
        None => false,
    }
}

/// Whether `part` is what one of the expressions says.
pub open spec fn says_expression(
    list: Option<Vec<LabelSelectorRequirement>>,
    part: Seq<char>,
) -> bool {
    list matches Some(l) && exists|i: int|
        0 <= i < l@.len() && fragment_text(#[trigger] l@[i]) == Some(part)
}

proof fn lemma_fragments_hold(list: Seq<LabelSelectorRequirement>, part: Seq<char>)
    ensures
        fragments(list).contains(part) <==> exists|i: int|
            0 <= i < list.len() && fragment_text(#[trigger] list[i]) == Some(part),
    decreases list.len(),
{
    let all = fragments(list);
    if list.len() > 0 {
        let rest = list.drop_last();
        let before = fragments(rest);
        lemma_fragments_hold(rest, part);
        if all.contains(part) {
            let k = all.index_of(part);
            if k < before.len() {
                assert(before[k] == part);
                let i = choose|i: int|
                    0 <= i < rest.len() && fragment_text(#[trigger] rest[i]) == Some(part);
                assert(list[i] == rest[i]);
            } else {
                assert(fragment_text(list[list.len() - 1]) == Some(part));
            }
        }
        if exists|i: int| 0 <= i < list.len() && fragment_text(#[trigger] list[i]) == Some(part) {
            let i = choose|i: int|
                0 <= i < list.len() && fragment_text(#[trigger] list[i]) == Some(part);
            if i < rest.len() {
                assert(rest[i] == list[i]);
                assert(before.contains(part));
                assert(all[before.index_of(part)] == part);
            } else {
                assert(all[before.len() as int] == part);
            }
        }
    }
}

proof fn lemma_pairs_hold(labels: Labels, part: Seq<char>)
    ensures
        label_pairs(labels).contains(part) <==> is_label_of(labels, part),
{
    let all = label_pairs(labels);
    if all.contains(part) {
        let i = choose|i: int| 0 <= i < all.len() && all[i] == part;
        lemma_pair_at(labels, i);
        assert(part == labels.0.items()[i].0@ + "="@ + labels.0.items()[i].1@);
    }
    if is_label_of(labels, part) {
        let i = choose|i: int|
            0 <= i < labels.0.items().len() && part == (#[trigger] labels.0.items()[i]).0@ + "="@
                + labels.0.items()[i].1@;
        lemma_pair_at(labels, i);
        assert(all[i] == part);
    }
}

proof fn lemma_pair_at(labels: Labels, i: int)
    requires
        0 <= i < labels.0.items().len(),
    ensures
        label_pairs(labels).len() == labels.0.items().len(),
        label_pairs(labels)[i] == labels.0.items()[i].0@ + "="@ + labels.0.items()[i].1@,
{
}

proof fn lemma_selector_parts_hold(ls: LabelSelector, template: Option<Labels>, part: Seq<char>)
    ensures
        selector_parts(ls, template).contains(part) <==> {
            ||| says_label(ls.match_labels, part)
            ||| says_expression(ls.match_expressions, part)
            ||| !has_labels(ls.match_labels) && (ls.match_expressions matches Some(l) ==> l@.len()
                == 0) && says_label(template, part)
        },
{
    let by_label = match ls.match_labels {
        Some(labels) => label_pairs(labels),
        None => Seq::empty(),
    };
    let by_expression = match ls.match_expressions {
        Some(list) => fragments(list@),
        None => Seq::empty(),
    };
    if let Some(labels) = ls.match_labels {
        lemma_pairs_hold(labels, part);
    }
    if let Some(list) = ls.match_expressions {
        lemma_fragments_hold(list@, part);
    }
    if let Some(labels) = template {
        lemma_pairs_hold(labels, part);
    }
    let both = by_label + by_expression;
    if both.contains(part) {
        let i = both.index_of(part);
        if i < by_label.len() {
            assert(by_label[i] == part);
        } else {
            assert(by_expression[i - by_label.len()] == part);
        }
    }
    if by_label.contains(part) {
        assert(both[by_label.index_of(part)] == part);
    }
    if by_expression.contains(part) {
        assert(both[by_label.len() + by_expression.index_of(part)] == part);
    }
}

/// The selector of a workload says each of its labels as `name=value` and each expression that is
/// understood, in ascending order and with commas between them, and nothing else. The labels of the
/// pod template come in only where there are neither labels nor expressions to match.
pub proof fn law_workload_is_selected_by_its_parts(spec: WorkloadSpec, name: Seq<char>, some_part: Seq<char>)
    requires
        ({
            ||| says_label(spec.selector.match_labels, some_part)
            ||| says_expression(spec.selector.match_expressions, some_part)
            ||| !has_labels(spec.selector.match_labels) && (spec.selector.match_expressions matches Some(l)
                ==> l@.len() == 0) && says_label(spec.template_labels, some_part)
        }),
    ensures
        exists|parts: Seq<Seq<char>>|
            {
                &&& Workload::Deployment(Some(spec)).selector(name) == #[trigger] text::joined(
                    parts,
                    ","@,
                )
                &&& sorting::ascending(parts)
                &&& forall|part: Seq<char>| #[trigger]
                    parts.contains(part) <==> {
                        ||| says_label(spec.selector.match_labels, part)
                        ||| says_expression(spec.selector.match_expressions, part)
                        ||| !has_labels(spec.selector.match_labels) && (
                        spec.selector.match_expressions matches Some(l) ==> l@.len() == 0)
                            && says_label(spec.template_labels, part)
                    }
            },
{
    let all = selector_parts(spec.selector, spec.template_labels);
    let parts = sorting::sorted_texts(all);
    sorting::law_sorted_texts(all);
    lemma_selector_parts_hold(spec.selector, spec.template_labels, some_part);
    assert(all.len() > 0);
    assert forall|part: Seq<char>| #[trigger] parts.contains(part) <==> {
        ||| says_label(spec.selector.match_labels, part)
        ||| says_expression(spec.selector.match_expressions, part)
        ||| !has_labels(spec.selector.match_labels) && (
        spec.selector.match_expressions matches Some(l) ==> l@.len() == 0) && says_label(
            spec.template_labels,
            part,
        )
    } by {
        lemma_selector_parts_hold(spec.selector, spec.template_labels, part);
        parts.to_multiset_ensures();
        all.to_multiset_ensures();
        assert(parts.contains(part) <==> parts.to_multiset().count(part) > 0);
        assert(all.contains(part) <==> all.to_multiset().count(part) > 0);
    }
    assert(Workload::Deployment(Some(spec)).selector(name) == text::joined(parts, ","@));
}

/// A workload of which nothing is said is selected by `app=` and its name: no label to match, no
/// expression that is understood, and no label of the pod template that could stand in. The template
/// never stands in for an expression that is not understood.
pub proof fn law_workload_without_parts(spec: WorkloadSpec, name: Seq<char>)
    requires
        !has_labels(spec.selector.match_labels),
        spec.selector.match_expressions matches Some(l) ==> forall|i: int|
            0 <= i < l@.len() ==> fragment_text(#[trigger] l@[i]) is None,
        !has_labels(spec.template_labels) || (spec.selector.match_expressions matches Some(l)
            && l@.len() > 0),
    ensures
        Workload::Deployment(Some(spec)).selector(name) == "app="@ + name,
{
    let all = selector_parts(spec.selector, spec.template_labels);
    if all.len() > 0 {
        assert(all.contains(all[0]));
        lemma_selector_parts_hold(spec.selector, spec.template_labels, all[0]);
    }
}

/// An expression with `In` or `NotIn` lists all its values in ascending order between brackets,
/// behind the key and ` in ` or ` notin `; without a value it says nothing.
pub proof fn law_value_expressions(req: LabelSelectorRequirement)
    requires
        req.operator@ == "In"@ || req.operator@ == "NotIn"@,
    ensures
        match req.values {
            Some(values) => if values@.len() > 0 {
                exists|list: Seq<Seq<char>>|
                    {
                        &&& sorting::ascending(list)
                        &&& list.to_multiset() == text::texts(values@).to_multiset()
                        &&& fragment_text(req) == Some(
                            req.key@ + (if req.operator@ == "In"@ {
                                " in "@
                            } else {
                                " notin "@
                            }) + ("("@ + #[trigger] text::joined(list, ","@) + ")"@),
                        )
                    }
            } else {
                fragment_text(req) is None
            },
            None => fragment_text(req) is None,
        },
{
    reveal_strlit("In");
    reveal_strlit("NotIn");
    assert("In"@.len() != "NotIn"@.len());
    if let Some(values) = req.values {
        sorting::law_sorted_texts(text::texts(values@));
        let list = sorting::sorted_texts(text::texts(values@));
        assert(text::joined(list, ","@) == text::joined(list, ","@));
    }
}

/// An expression with `Exists` is its key, one with `DoesNotExist` its key behind an exclamation
/// mark, whatever their values; one with any other operator but `In` and `NotIn` says nothing.
pub proof fn law_presence_expressions(req: LabelSelectorRequirement)
    ensures
        req.operator@ == "Exists"@ ==> fragment_text(req) == Some(req.key@),
        req.operator@ == "DoesNotExist"@ ==> fragment_text(req) == Some(seq!['!'] + req.key@),
        req.operator@ != "In"@ && req.operator@ != "NotIn"@ && req.operator@ != "Exists"@
            && req.operator@ != "DoesNotExist"@ ==> fragment_text(req) is None,
{
    reveal_strlit("In");
    reveal_strlit("NotIn");
    reveal_strlit("Exists");
    reveal_strlit("DoesNotExist");
    reveal_strlit("!");
    assert("Exists"@.len() == 6 && "DoesNotExist"@.len() == 12 && "In"@.len() == 2
        && "NotIn"@.len() == 5);
    assert("!"@ =~= seq!['!']);
}

/// Several namespaces that were all asked and all gave the same selector are searched by it.
pub proof fn law_namespaces_that_agree(
    kind: ResourceKind,
    name: Seq<char>,
    namespaces: nat,
    replies: Seq<Result<String, String>>,
    selector: Result<String, String>,
    common: Seq<char>,
)
    requires
        kind != ResourceKind::Pod,
        namespaces > 0,
        replies.len() > 0,
        forall|i: int|
            0 <= i < replies.len() ==> ((#[trigger] replies[i]) matches Ok(r) && r@ == common),
        is_namespaces_selector(kind, name, namespaces, false, replies, selector),
    ensures
        selector matches Ok(s) && s@ == common,
{
    let all = reply_texts(replies);
    assert(all[0] == common) by {
        assert(replies[0] is Ok);
    }
    assert forall|i: int| 0 <= i < all.len() implies #[trigger] all[i] == all[0] by {
        assert(replies[i] is Ok);
    }
}

/// Several namespaces, of which one could not be asked or two gave different selectors, are searched
/// by `app=` and the name, wherever in the list those stand.
pub proof fn law_namespaces_that_disagree(
    kind: ResourceKind,
    name: Seq<char>,
    namespaces: nat,
    replies: Seq<Result<String, String>>,
    selector: Result<String, String>,
    i: int,
    j: int,
)
    requires
        kind != ResourceKind::Pod,
        namespaces > 1,
        0 <= i < replies.len(),
        0 <= j < replies.len(),
        replies[i] is Err || (replies[i] matches Ok(a) && (replies[j] matches Ok(b) ==> a@ != b@)),
        is_namespaces_selector(kind, name, namespaces, false, replies, selector),
    ensures
        selector matches Ok(s) && s@ == "app="@ + name,
{
    if forall|k: int| 0 <= k < replies.len() ==> (#[trigger] replies[k]) is Ok {
        let all = reply_texts(replies);
        assert(replies[i] is Ok && replies[j] is Ok);
        law_disagreement_falls_back(all, i, j, kind, name);
    }
}

/// The API server is asked for a workload in a single namespace, and never for a pod.
pub proof fn law_when_a_workload_is_asked_for(kind: ResourceKind, single_namespace: bool)
    ensures
        asks_for_workload(kind, single_namespace) <==> single_namespace && kind != ResourceKind::Pod,
{
}

} // verus!
