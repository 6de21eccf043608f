//! Pod list/watch parameter resolution: query and selectors into list and watch parameters.

use crate::discovery::resource;
use crate::discovery::resource::{Query, QueryParseError, ResourceKind};
use crate::discovery::workload_selector;
use crate::regex_limits;
use crate::regex_limits::Pattern;
use crate::text;
use vstd::prelude::*;

verus! {

/// Why the pods to watch could not be worked out.
#[derive(Debug)]
pub enum PodListError {
    Query(QueryParseError),
    Regex(String),
    Kube(String),
}

impl PodListError {
    /// What the error says.
    pub open spec fn text(&self) -> Seq<char> {
        match self {
            PodListError::Query(e) => e.text(),
            PodListError::Regex(reason) => reason@,
            PodListError::Kube(reason) => reason@,
        }
    }

    /// What the error says.
    pub fn message(&self) -> (text: String)
        ensures
            text@ == self.text(),
    {
        match self {
            PodListError::Query(e) => e.message(),
            PodListError::Regex(reason) => reason.clone(),
            PodListError::Kube(reason) => reason.clone(),
        }
    }
}

/// Inputs for [`PodWatchPlan::build`].
pub struct PodWatchPlanConfig<'a> {
    pub query: &'a str,
    pub selector: Option<&'a str>,
    pub field_selector: Option<&'a str>,
    pub node: Option<&'a str>,
    pub namespaces: &'a [String],
    pub all_namespaces: bool,
}

/// The selectors of a list call or of a watch.
#[derive(Debug)]
pub struct SelectorParams {
    pub label_selector: Option<String>,
    pub field_selector: Option<String>,
}

impl SelectorParams {
    /// The label selector as text.
    pub open spec fn labels(&self) -> Option<Seq<char>> {
        match self.label_selector {
            Some(s) => Some(s@),
            None => None,
        }
    }

    /// The field selector as text.
    pub open spec fn fields(&self) -> Option<Seq<char>> {
        match self.field_selector {
            Some(s) => Some(s@),
            None => None,
        }
    }
}

/// What to list, what to watch, and which pod names count.
pub struct PodWatchPlan {
    pub list_params: SelectorParams,
    pub watch_cfg: SelectorParams,
    pub pod_regex: Option<Pattern>,
}

/// The trimmed text, where there is one that is not blank.
pub open spec fn non_blank(given: Option<&str>) -> Option<Seq<char>> {
    match given {
        Some(s) => if text::trimmed(s@).len() > 0 {
            Some(text::trimmed(s@))
        } else {
            None
        },
        None => None,
    }
}

/// The field selector and the node constraint in one field selector.
pub open spec fn combined_fields(cfg: PodWatchPlanConfig<'_>) -> Option<Seq<char>> {
    match (non_blank(cfg.field_selector), non_blank(cfg.node)) {
        (Some(fields), Some(node)) => Some(fields + ",spec.nodeName="@ + node),
        (Some(fields), None) => Some(fields),
        (None, Some(node)) => Some("spec.nodeName="@ + node),
        (None, None) => None,
    }
}

/// The field selector of a query for one pod by name.
pub open spec fn pod_name_fields(pod_name: Seq<char>, cfg: PodWatchPlanConfig<'_>) -> Seq<char> {
    let by_name = "metadata.name="@ + text::trimmed(pod_name);
    match combined_fields(cfg) {
        Some(rest) => by_name + ","@ + rest,
        None => by_name,
    }
}

/// The field selector and the node constraint in one field selector, if there is any.
pub fn combined_field_selector(cfg: &PodWatchPlanConfig<'_>) -> (combined: Option<String>)
    ensures
        match combined {
            Some(c) => combined_fields(*cfg) == Some(c@),
            None => combined_fields(*cfg) is None,
        },
{
    let fields = match cfg.field_selector {
        Some(s) => text::trim(s),
        None => "",
    };
    let node = match cfg.node {
        Some(s) => text::trim(s),
        None => "",
    };
    proof {
        reveal_strlit("");
        reveal_strlit(",");
        reveal_strlit("spec.nodeName=");
        reveal_strlit(",spec.nodeName=");
        assert(","@ + "spec.nodeName="@ =~= ",spec.nodeName="@);
    }
    if fields.is_empty() {
        if node.is_empty() {
            None
        } else {
            Some("spec.nodeName=".to_owned().concat(node))
        }
    } else if node.is_empty() {
        Some(fields.to_owned())
    } else {
        Some(fields.to_owned().concat(",spec.nodeName=").concat(node))
    }
}

/// The field selector of a query for one pod by name, with what else narrows the fields.
pub fn merged_field_selector_for_pod_name(pod_name: &str, cfg: &PodWatchPlanConfig<'_>) -> (merged: String)
    ensures
        merged@ == pod_name_fields(pod_name@, *cfg),
{
    let by_name = "metadata.name=".to_owned().concat(text::trim(pod_name));
    match combined_field_selector(cfg) {
        Some(rest) => by_name.concat(",").concat(rest.as_str()),
        None => by_name,
    }
}

/// The query that a plan is built from: `.` with a label selector means every pod.
pub open spec fn planned_query(cfg: PodWatchPlanConfig<'_>) -> Seq<char> {
    if cfg.selector is Some && cfg.query@ == "."@ {
        ".*"@
    } else {
        cfg.query@
    }
}

/// The query that a plan is built from.
fn query_source<'a>(cfg: &PodWatchPlanConfig<'a>) -> (query: &'a str)
    ensures
        query@ == planned_query(*cfg),
{
    if cfg.selector.is_some() && text::same(cfg.query, ".") {
        ".*"
    } else {
        cfg.query
    }
}

/// Whether a plan has exactly these label and field selectors, for the list and for the watch.
pub open spec fn plan_selects(
    plan: PodWatchPlan,
    labels: Option<Seq<char>>,
    fields: Option<Seq<char>>,
) -> bool {
    &&& plan.list_params.labels() == labels
    &&& plan.list_params.fields() == fields
    &&& plan.watch_cfg.labels() == labels
    &&& plan.watch_cfg.fields() == fields
}

/// Whether `planned` is the plan for a name pattern: the given label selector, the combined field
/// selector, and the pattern that pod names must match.
pub open spec fn is_pattern_plan(
    cfg: PodWatchPlanConfig<'_>,
    pattern: Seq<char>,
    planned: Result<PodWatchPlan, PodListError>,
) -> bool {
    planned matches Ok(plan) && {
        &&& plan_selects(
            plan,
            match cfg.selector {
                Some(s) => Some(s@),
                None => None,
            },
            combined_fields(cfg),
        )
        &&& plan.pod_regex matches Some(p) && p@ == pattern
    }
}

/// Whether `planned` is the plan for a `kind/name` query, where looking the workload up gave
/// `replies`. A label selector takes the place of the kind; a pod is selected by its name field;
/// any other kind by the labels of the workload.
pub open spec fn is_kind_plan(
    cfg: PodWatchPlanConfig<'_>,
    kind: ResourceKind,
    name: Seq<char>,
    replies: Seq<Result<String, String>>,
    planned: Result<PodWatchPlan, PodListError>,
) -> bool {
    if cfg.selector is Some {
        planned matches Ok(plan) && plan.pod_regex is None && plan_selects(
            plan,
            Some(cfg.selector->0@),
            combined_fields(cfg),
        )
    } else if kind == ResourceKind::Pod {
        planned matches Ok(plan) && plan.pod_regex is None && plan_selects(
            plan,
            None,
            Some(pod_name_fields(name, cfg)),
        )
    } else {
        match planned {
            Ok(plan) => {
                &&& plan.pod_regex is None
                &&& plan.list_params.label_selector matches Some(s)
                    && workload_selector::is_namespaces_selector(
                    kind,
                    name,
                    cfg.namespaces@.len(),
                    cfg.all_namespaces,
                    replies,
                    Ok(s),
                )
                &&& plan_selects(plan, plan.list_params.labels(), combined_fields(cfg))
            },
            Err(PodListError::Kube(e)) => workload_selector::is_namespaces_selector(
                kind,
                name,
                cfg.namespaces@.len(),
                cfg.all_namespaces,
                replies,
                Err(e),
            ),
            Err(_) => false,
        }
    }
}

/// Whether `planned` is the plan for a query, where looking a workload up gave `replies`.
pub open spec fn is_plan(
    cfg: PodWatchPlanConfig<'_>,
    replies: Seq<Result<String, String>>,
    planned: Result<PodWatchPlan, PodListError>,
) -> bool {
    let query = planned_query(cfg);
    match text::cut_once(query, '/') {
        Some((kind_name, rest)) => match resource::kind_named(kind_name) {
            Some(kind) => is_kind_plan(cfg, kind, rest, replies, planned),
            None => planned matches Err(PodListError::Query(e)) && resource::is_query_error(
                query,
                e,
            ),
        },
        None => if regex_limits::within_limit(query) && regex_limits::pattern_compiles(query) {
            is_pattern_plan(cfg, query, planned)
        } else {
            planned matches Err(PodListError::Query(e)) && resource::is_query_error(query, e)
        },
    }
}

/// The same selectors once more, for the watch.
fn watch_params(list: &SelectorParams) -> (watch: SelectorParams)
    ensures
        watch.labels() == list.labels(),
        watch.fields() == list.fields(),
{
    SelectorParams {
        label_selector: list.label_selector.clone(),
        field_selector: list.field_selector.clone(),
    }
}

/// The kind and name to look up before a plan can be built, if the query names a workload and no
/// label selector takes its place.
pub fn workload_to_look_up(cfg: &PodWatchPlanConfig<'_>) -> (target: Result<
    Option<(ResourceKind, String)>,
    PodListError,
>)
    ensures
        match text::cut_once(planned_query(*cfg), '/') {
            Some((kind_name, rest)) => match resource::kind_named(kind_name) {
                Some(kind) => if cfg.selector is None && kind != ResourceKind::Pod {
                    target matches Ok(Some((k, name))) && k == kind && name@ == rest
                } else {
                    target matches Ok(None)
                },
                None => target matches Err(PodListError::Query(e)) && resource::is_query_error(
                    planned_query(*cfg),
                    e,
                ),
            },
            None => if regex_limits::within_limit(planned_query(*cfg))
                && regex_limits::pattern_compiles(planned_query(*cfg)) {
                target matches Ok(None)
            } else {
                target matches Err(PodListError::Query(e)) && resource::is_query_error(
                    planned_query(*cfg),
                    e,
                )
            },
        },
{
    match resource::parse_query(query_source(cfg)) {
        Ok(Query::LabelSelector { kind, name }) => match kind {
            ResourceKind::Pod => Ok(None),
            _ => if cfg.selector.is_none() {
                Ok(Some((kind, name)))
            } else {
                Ok(None)
            },
        },
        Ok(Query::PodNameRegex(_)) => Ok(None),
        Err(e) => Err(PodListError::Query(e)),
    }
}

impl PodWatchPlan {
    /// The plan for a name pattern that was compiled.
    pub fn for_pattern(cfg: &PodWatchPlanConfig<'_>, pod_regex: Pattern) -> (plan: PodWatchPlan)
        ensures
            is_pattern_plan(*cfg, pod_regex@, Ok(plan)),
    {
        let label_selector = match cfg.selector {
            Some(s) => Some(s.to_owned()),
            None => None,
        };
        let list_params = SelectorParams {
            label_selector,
            field_selector: combined_field_selector(cfg),
        };
        let watch_cfg = watch_params(&list_params);
        PodWatchPlan { list_params, watch_cfg, pod_regex: Some(pod_regex) }
    }

    /// The plan for a `kind/name` query, where looking the workload up gave `replies`.
    pub fn for_kind(
        cfg: &PodWatchPlanConfig<'_>,
        kind: ResourceKind,
        name: &str,
        replies: Vec<Result<String, String>>,
    ) -> (planned: Result<PodWatchPlan, PodListError>)
        ensures
            is_kind_plan(*cfg, kind, name@, replies@, planned),
    {
        let list_params = match cfg.selector {
            Some(s) => SelectorParams {
                label_selector: Some(s.to_owned()),
                field_selector: combined_field_selector(cfg),
            },
            None => match kind {
                ResourceKind::Pod => SelectorParams {
                    label_selector: None,
                    field_selector: Some(merged_field_selector_for_pod_name(name, cfg)),
                },
                _ => match workload_selector::resolve_label_selector_for_namespaces(
                    kind,
                    name,
                    cfg.namespaces,
                    cfg.all_namespaces,
                    replies,
                ) {
                    Ok(resolved) => SelectorParams {
                        label_selector: Some(resolved),
                        field_selector: combined_field_selector(cfg),
                    },
                    Err(e) => {
                        return Err(PodListError::Kube(e));
                    },
                },
            },
        };
        let watch_cfg = watch_params(&list_params);
        Ok(PodWatchPlan { list_params, watch_cfg, pod_regex: None })
    }

    /// Works out what to list and to watch. `replies` are the selectors that looking up the
    /// workload of [`workload_to_look_up`] gave, one per namespace that was asked.
    pub fn build(cfg: &PodWatchPlanConfig<'_>, replies: Vec<Result<String, String>>) -> (planned:
        Result<PodWatchPlan, PodListError>)
        ensures
            is_plan(*cfg, replies@, planned),
    {
        match resource::parse_query(query_source(cfg)) {
            Ok(Query::LabelSelector { kind, name }) => Self::for_kind(
                cfg,
                kind,
                name.as_str(),
                replies,
            ),
            Ok(Query::PodNameRegex(re)) => match Pattern::compile(re.as_str()) {
                Ok(pod_regex) => Ok(Self::for_pattern(cfg, pod_regex)),
                Err(e) => Err(PodListError::Regex(e)),
            },
            Err(e) => Err(PodListError::Query(e)),
        }
    }
}


/// A query `kind/name` is cut into its two sides.
proof fn lemma_kind_query(kind_name: Seq<char>, name: Seq<char>, query: Seq<char>)
    requires
        query == kind_name + "/"@ + name,
        !kind_name.contains('/'),
    ensures
        text::cut_once(query, '/') == Some((kind_name, name)),
{
    reveal_strlit("/");
    assert(query =~= kind_name.push('/') + name);
    text::law_cut_undoes_putting_together(kind_name, '/', name);
}

proof fn lemma_pod_query(cfg: PodWatchPlanConfig<'_>, name: Seq<char>)
    requires
        cfg.selector is None,
        cfg.query@ == "pod/"@ + name || cfg.query@ == "po/"@ + name,
    ensures
        exists|kind_name: Seq<char>|
            text::cut_once(planned_query(cfg), '/') == Some((kind_name, name))
                && #[trigger] resource::kind_named(kind_name) == Some(ResourceKind::Pod),
{
    reveal_strlit("/");
    reveal_strlit("pod");
    reveal_strlit("po");
    reveal_strlit("pod/");
    reveal_strlit("po/");
    let kind_name = if cfg.query@ == "pod/"@ + name {
        "pod"@
    } else {
        "po"@
    };
    assert(cfg.query@ =~= kind_name + "/"@ + name);
    assert(!kind_name.contains('/'));
    lemma_kind_query(kind_name, name, cfg.query@);
    resource::law_names_of_kinds(kind_name);
}

/// A query for one pod without a label selector lists and watches by the name field alone, and by
/// what else narrows the fields: the field selector begins with `metadata.name=` and the trimmed
/// name, which a comma ends where more follows.
pub proof fn law_pod_query_selects_by_name(
    cfg: PodWatchPlanConfig<'_>,
    name: Seq<char>,
    replies: Seq<Result<String, String>>,
    planned: Result<PodWatchPlan, PodListError>,
)
    requires
        cfg.selector is None,
        cfg.query@ == "pod/"@ + name || cfg.query@ == "po/"@ + name,
        is_plan(cfg, replies, planned),
    ensures
        planned matches Ok(plan) && {
            let by_name = "metadata.name="@ + text::trimmed(name);
            &&& plan.pod_regex is None
            &&& plan.list_params.label_selector is None
            &&& plan.watch_cfg.label_selector is None
            &&& plan.list_params.field_selector matches Some(fields) && by_name.is_prefix_of(fields@)
                && (fields@.len() == by_name.len() || fields@[by_name.len() as int] == ',')
            &&& plan.watch_cfg.field_selector matches Some(fields) && by_name.is_prefix_of(fields@)
                && (fields@.len() == by_name.len() || fields@[by_name.len() as int] == ',')
        },
{
    reveal_strlit(",");
    lemma_pod_query(cfg, name);
}

/// Plans for two pods with different names never select the same fields, whatever else narrows
/// them.
pub proof fn law_pods_are_told_apart(
    one: PodWatchPlanConfig<'_>,
    other: PodWatchPlanConfig<'_>,
    a: Seq<char>,
    b: Seq<char>,
    first: PodWatchPlan,
    second: PodWatchPlan,
    replies: Seq<Result<String, String>>,
    other_replies: Seq<Result<String, String>>,
)
    requires
        one.selector is None,
        other.selector is None,
        one.query@ == "pod/"@ + a || one.query@ == "po/"@ + a,
        other.query@ == "pod/"@ + b || other.query@ == "po/"@ + b,
        one.field_selector == other.field_selector,
        one.node == other.node,
        text::trimmed(a) != text::trimmed(b),
        is_plan(one, replies, Ok(first)),
        is_plan(other, other_replies, Ok(second)),
    ensures
        first.list_params.fields() != second.list_params.fields(),
        first.watch_cfg.fields() != second.watch_cfg.fields(),
{
    lemma_pod_query(one, a);
    lemma_pod_query(other, b);
    let x = pod_name_fields(a, one);
    let y = pod_name_fields(b, other);
    let n: int = "metadata.name="@.len() as int;
    if x == y {
        assert(combined_fields(one) == combined_fields(other));
        assert(x.len() - text::trimmed(a).len() == y.len() - text::trimmed(b).len());
        assert(x.subrange(n, n + text::trimmed(a).len()) =~= text::trimmed(a));
        assert(y.subrange(n, n + text::trimmed(b).len()) =~= text::trimmed(b));
    }
}

/// Whatever the query is, the watch asks for the same labels and fields as the list.
pub proof fn law_watch_asks_as_the_list(
    cfg: PodWatchPlanConfig<'_>,
    replies: Seq<Result<String, String>>,
    plan: PodWatchPlan,
)
    requires
        is_plan(cfg, replies, Ok(plan)),
    ensures
        plan.watch_cfg.labels() == plan.list_params.labels(),
        plan.watch_cfg.fields() == plan.list_params.fields(),
{
}

/// A label selector that was given is used as it stands, whatever the query is; it never leads to a
/// lookup of a workload. Without one, a name pattern asks for no labels.
pub proof fn law_given_labels_are_used(
    cfg: PodWatchPlanConfig<'_>,
    replies: Seq<Result<String, String>>,
    plan: PodWatchPlan,
)
    requires
        is_plan(cfg, replies, Ok(plan)),
    ensures
        cfg.selector matches Some(s) ==> plan.list_params.labels() == Some(s@)
            && plan.watch_cfg.labels() == Some(s@),
        cfg.selector is None && !cfg.query@.contains('/') ==> plan.list_params.label_selector is None,
{
    text::law_cut_at_first_mark(planned_query(cfg), '/');
}

/// A node that was given is asked for in every plan: the field selector ends with `spec.nodeName=`
/// and the trimmed node, alone or behind a comma.
pub proof fn law_node_is_asked_for(
    cfg: PodWatchPlanConfig<'_>,
    replies: Seq<Result<String, String>>,
    plan: PodWatchPlan,
    node: &str,
)
    requires
        is_plan(cfg, replies, Ok(plan)),
        cfg.node == Some(node),
        text::trimmed(node@).len() > 0,
    ensures
        plan.list_params.field_selector matches Some(fields) && {
            let on_node = "spec.nodeName="@ + text::trimmed(node@);
            &&& on_node.is_suffix_of(fields@)
            &&& fields@.len() == on_node.len() || fields@[fields@.len() - on_node.len() - 1] == ','
        },
{
    reveal_strlit(",");
    reveal_strlit("spec.nodeName=");
    reveal_strlit(",spec.nodeName=");
    reveal_strlit("metadata.name=");
    let fields = plan.list_params.fields()->0;
    let on_node = "spec.nodeName="@ + text::trimmed(node@);
    let rest = combined_fields(cfg)->0;
    assert(on_node.is_suffix_of(rest)) by {
        assert(rest.skip(rest.len() - on_node.len()) =~= on_node);
    }
    assert(fields.skip(fields.len() - on_node.len()) =~= on_node);
}

/// A field selector that was given stands, trimmed, in every plan: in front of the node, and behind
/// the name of a pod.
pub proof fn law_given_fields_are_used(
    cfg: PodWatchPlanConfig<'_>,
    replies: Seq<Result<String, String>>,
    plan: PodWatchPlan,
    given: &str,
)
    requires
        is_plan(cfg, replies, Ok(plan)),
        cfg.field_selector == Some(given),
        text::trimmed(given@).len() > 0,
    ensures
        plan.list_params.field_selector matches Some(fields) && exists|i: int|
            {
                &&& 0 <= i
                &&& i + text::trimmed(given@).len() <= fields@.len()
                &&& #[trigger] fields@.subrange(i, i + text::trimmed(given@).len()) == text::trimmed(
                    given@,
                )
                &&& i == 0 || fields@[i - 1] == ','
            },
{
    reveal_strlit(",");
    let fields = plan.list_params.fields()->0;
    let wanted = text::trimmed(given@);
    let i: int = if plan.list_params.fields() == combined_fields(cfg) {
        0
    } else {
        fields.len() - combined_fields(cfg)->0.len()
    };
    assert(combined_fields(cfg)->0.take(wanted.len() as int) =~= wanted);
    assert(fields.subrange(i, i + wanted.len()) =~= wanted);
}

/// Without a field selector and a node nothing but the name of a pod narrows the fields.
pub proof fn law_no_fields_of_its_own(
    cfg: PodWatchPlanConfig<'_>,
    kind: ResourceKind,
    name: Seq<char>,
    replies: Seq<Result<String, String>>,
    plan: PodWatchPlan,
)
    requires
        cfg.field_selector is None,
        cfg.node is None,
        is_kind_plan(cfg, kind, name, replies, Ok(plan)),
    ensures
        plan.list_params.fields() == if cfg.selector is None && kind == ResourceKind::Pod {
            Some("metadata.name="@ + text::trimmed(name))
        } else {
            None
        },
{
}

/// A workload in one namespace is listed by exactly the labels that looking it up gave; where every
/// namespace is meant, by `app=` and its name.
pub proof fn law_workload_query_selects_by_its_labels(
    cfg: PodWatchPlanConfig<'_>,
    kind: ResourceKind,
    name: Seq<char>,
    replies: Seq<Result<String, String>>,
    planned: Result<PodWatchPlan, PodListError>,
)
    requires
        cfg.selector is None,
        kind != ResourceKind::Pod,
        is_kind_plan(cfg, kind, name, replies, planned),
    ensures
        cfg.all_namespaces || cfg.namespaces@.len() == 0 ==> (planned matches Ok(plan)
            && plan.pod_regex is None && plan.list_params.labels() == Some("app="@ + name)),
        !cfg.all_namespaces && cfg.namespaces@.len() == 1 && replies.len() > 0 ==> (match replies[0] {
            Ok(labels) => planned matches Ok(plan) && plan.pod_regex is None
                && plan.list_params.labels() == Some(labels@),
            Err(reason) => planned matches Err(PodListError::Kube(e)) && e == reason,
        }),
{
}

/// A query without a slash narrows the pods by their name: the pattern is the query itself, except
/// that with a label selector `.` asks for every pod.
pub proof fn law_pattern_query_selects_by_pattern(
    cfg: PodWatchPlanConfig<'_>,
    replies: Seq<Result<String, String>>,
    plan: PodWatchPlan,
)
    requires
        !cfg.query@.contains('/'),
        is_plan(cfg, replies, Ok(plan)),
    ensures
        plan.pod_regex matches Some(pattern) && pattern@ == if cfg.selector is Some && cfg.query@
            == "."@ {
            ".*"@
        } else {
            cfg.query@
        },
{
    reveal_strlit(".*");
    text::law_cut_at_first_mark(planned_query(cfg), '/');
}

/// A blank field selector and a blank node count as not given.
pub proof fn law_blank_counts_as_not_given<'a>(
    cfg: PodWatchPlanConfig<'a>,
    blank: &'a str,
    replies: Seq<Result<String, String>>,
    planned: Result<PodWatchPlan, PodListError>,
)
    requires
        forall|k: int| 0 <= k < blank@.len() ==> text::is_white_space(#[trigger] blank@[k]),
    ensures
        is_plan(PodWatchPlanConfig { field_selector: Some(blank), ..cfg }, replies, planned) <==> is_plan(
            PodWatchPlanConfig { field_selector: None, ..cfg },
            replies,
            planned,
        ),
        is_plan(PodWatchPlanConfig { node: Some(blank), ..cfg }, replies, planned) <==> is_plan(
            PodWatchPlanConfig { node: None, ..cfg },
            replies,
            planned,
        ),
{
    text::law_blank_trims_to_nothing(blank@);
}

/// A query that no plan can be made for is reported as such: an unknown kind by its name, and a
/// pattern by what is wrong with it.
pub proof fn law_bad_query_has_no_plan(
    cfg: PodWatchPlanConfig<'_>,
    kind_name: Seq<char>,
    name: Seq<char>,
    replies: Seq<Result<String, String>>,
    planned: Result<PodWatchPlan, PodListError>,
)
    requires
        cfg.query@ == kind_name + "/"@ + name,
        !kind_name.contains('/'),
        resource::kind_named(kind_name) is None,
        is_plan(cfg, replies, planned),
    ensures
        planned matches Err(PodListError::Query(QueryParseError::UnknownKind(k))) && k@ == kind_name,
{
    reveal_strlit("/");
    reveal_strlit(".");
    assert(cfg.query@[kind_name.len() as int] == '/');
    assert("."@[0] == '.' && "."@.len() == 1);
    lemma_kind_query(kind_name, name, cfg.query@);
}

/// What an error says is what its cause says, with nothing added.
pub proof fn law_what_plan_errors_say(reason: String, query: QueryParseError)
    ensures
        PodListError::Query(query).text() == query.text(),
        PodListError::Regex(reason).text() == reason@,
        PodListError::Kube(reason).text() == reason@,
{
}

/// A workload in several namespaces is listed by the labels on which all of them agree, and by `app=`
/// and its name where one could not be asked or two differ.
pub proof fn law_workload_in_several_namespaces(
    cfg: PodWatchPlanConfig<'_>,
    kind: ResourceKind,
    name: Seq<char>,
    replies: Seq<Result<String, String>>,
    planned: Result<PodWatchPlan, PodListError>,
    common: Seq<char>,
)
    requires
        cfg.selector is None,
        kind != ResourceKind::Pod,
        !cfg.all_namespaces,
        cfg.namespaces@.len() > 1,
        replies.len() > 0,
        replies[0] matches Ok(first) && first@ == common,
        is_kind_plan(cfg, kind, name, replies, planned),
    ensures
        planned matches Ok(plan) && plan.list_params.labels() == if forall|i: int|
            0 <= i < replies.len() ==> ((#[trigger] replies[i]) matches Ok(r) && r@ == common) {
            Some(common)
        } else {
            Some("app="@ + name)
        },
{
    let n = cfg.namespaces@.len();
    match planned {
        Ok(plan) => {
            let s = plan.list_params.label_selector->0;
            let given: Result<String, String> = Ok(s);
            if forall|i: int|
                0 <= i < replies.len() ==> ((#[trigger] replies[i]) matches Ok(r) && r@ == common) {
                workload_selector::law_namespaces_that_agree(kind, name, n, replies, given, common);
            } else {
                let i = choose|i: int|
                    0 <= i < replies.len() && !((#[trigger] replies[i]) matches Ok(r) && r@ == common);
                workload_selector::law_namespaces_that_disagree(kind, name, n, replies, given, i, 0);
            }
        },
        Err(_) => {},
    }
}

/// A query for a kind narrows no names: it has no pattern, whatever selectors there are.
pub proof fn law_kind_query_has_no_pattern(
    cfg: PodWatchPlanConfig<'_>,
    replies: Seq<Result<String, String>>,
    plan: PodWatchPlan,
)
    requires
        cfg.query@.contains('/'),
        is_plan(cfg, replies, Ok(plan)),
    ensures
        plan.pod_regex is None,
{
    reveal_strlit(".");
    assert(cfg.query@ != "."@) by {
        let i = choose|i: int| 0 <= i < cfg.query@.len() && cfg.query@[i] == '/';
        if cfg.query@ == "."@ {
            assert("."@[i] == '/');
        }
    }
    text::law_cut_at_first_mark(planned_query(cfg), '/');
}

/// The field selector is made of what was given and of nothing else: the trimmed field selector, then
/// the node, with a comma between them; for one pod its name and a comma stand in front.
pub proof fn law_fields_are_what_was_given(
    cfg: PodWatchPlanConfig<'_>,
    kind: ResourceKind,
    name: Seq<char>,
    replies: Seq<Result<String, String>>,
    plan: PodWatchPlan,
    given: &str,
    node: &str,
)
    requires
        is_kind_plan(cfg, kind, name, replies, Ok(plan)),
        text::trimmed(given@).len() > 0,
        text::trimmed(node@).len() > 0,
    ensures
        ({
            let front = if cfg.selector is None && kind == ResourceKind::Pod {
                "metadata.name="@ + text::trimmed(name) + seq![',']
            } else {
                Seq::empty()
            };
            let fields = text::trimmed(given@);
            let on_node = "spec.nodeName="@ + text::trimmed(node@);
            &&& cfg.field_selector == Some(given) && cfg.node == Some(node) ==> plan.list_params.fields()
                == Some(front + fields + seq![','] + on_node)
            &&& cfg.field_selector == Some(given) && cfg.node is None ==> plan.list_params.fields()
                == Some(front + fields)
            &&& cfg.field_selector is None && cfg.node == Some(node) ==> plan.list_params.fields()
                == Some(front + on_node)
        }),
{
    reveal_strlit(",");
    reveal_strlit("spec.nodeName=");
    reveal_strlit(",spec.nodeName=");
    assert(","@ =~= seq![',']);
    let front = if cfg.selector is None && kind == ResourceKind::Pod {
        "metadata.name="@ + text::trimmed(name) + seq![',']
    } else {
        Seq::empty()
    };
    let fields = text::trimmed(given@);
    let on_node = "spec.nodeName="@ + text::trimmed(node@);
    assert(fields + ",spec.nodeName="@ + text::trimmed(node@) =~= fields + seq![','] + on_node);
    if cfg.field_selector == Some(given) && cfg.node == Some(node) {
        assert(plan.list_params.fields()->0 =~= front + fields + seq![','] + on_node);
    }
    if cfg.field_selector == Some(given) && cfg.node is None {
        assert(plan.list_params.fields()->0 =~= front + fields);
    }
    if cfg.field_selector is None && cfg.node == Some(node) {
        assert(plan.list_params.fields()->0 =~= front + on_node);
    }
}

/// The field selector of a pattern is made of the trimmed field selector and the node alone.
pub proof fn law_pattern_fields_are_what_was_given(
    cfg: PodWatchPlanConfig<'_>,
    pattern: Seq<char>,
    plan: PodWatchPlan,
    given: &str,
    node: &str,
)
    requires
        is_pattern_plan(cfg, pattern, Ok(plan)),
        text::trimmed(given@).len() > 0,
        text::trimmed(node@).len() > 0,
    ensures
        ({
            let fields = text::trimmed(given@);
            let on_node = "spec.nodeName="@ + text::trimmed(node@);
            &&& cfg.field_selector == Some(given) && cfg.node == Some(node) ==> plan.list_params.fields()
                == Some(fields + seq![','] + on_node)
            &&& cfg.field_selector == Some(given) && cfg.node is None ==> plan.list_params.fields()
                == Some(fields)
            &&& cfg.field_selector is None && cfg.node == Some(node) ==> plan.list_params.fields()
                == Some(on_node)
            &&& cfg.field_selector is None && cfg.node is None ==> plan.list_params.fields() is None
        }),
{
    reveal_strlit("spec.nodeName=");
    reveal_strlit(",spec.nodeName=");
    assert(text::trimmed(given@) + ",spec.nodeName="@ + text::trimmed(node@) =~= text::trimmed(given@)
        + seq![','] + ("spec.nodeName="@ + text::trimmed(node@)));
}

} // verus!
