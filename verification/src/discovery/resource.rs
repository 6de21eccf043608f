//! The pod query: a name pattern, or `kind/name`.

use crate::regex_limits;
use crate::regex_limits::Pattern;
use crate::text;
use vstd::prelude::*;

verus! {

/// A parsed pod query.
#[derive(Debug, PartialEq, Eq)]
pub enum Query {
    /// Pod name regex.
    PodNameRegex(String),
    /// `kind/name` query mapped to a label selector.
    LabelSelector { kind: ResourceKind, name: String },
}

/// The kinds that a `kind/name` query may name.
#[derive(Debug, Clone, Copy, PartialEq, Eq, Structural)]
pub enum ResourceKind {
    Pod,
    ReplicationController,
    Service,
    DaemonSet,
    Deployment,
    ReplicaSet,
    StatefulSet,
    Job,
}

/// Why a pod query was not understood.
#[derive(Debug)]
pub enum QueryParseError {
    Regex(String),
    UserRegex(String),
    UnknownKind(String),
}

impl QueryParseError {
    /// What the error says.
    pub open spec fn text(&self) -> Seq<char> {
        match self {
            QueryParseError::Regex(reason) => "invalid regex: "@ + reason@,
            QueryParseError::UserRegex(reason) => reason@,
            QueryParseError::UnknownKind(kind) => "unknown resource kind: "@ + kind@,
        }
    }

    /// What the error says.
    pub fn message(&self) -> (text: String)
        ensures
            text@ == self.text(),
    {
        match self {
            QueryParseError::Regex(reason) => "invalid regex: ".to_owned().concat(reason.as_str()),
            QueryParseError::UserRegex(reason) => reason.clone(),
            QueryParseError::UnknownKind(kind) => "unknown resource kind: ".to_owned().concat(
                kind.as_str(),
            ),
        }
    }
}

/// The kind that `name` is the full or the short name of.
pub open spec fn kind_named(name: Seq<char>) -> Option<ResourceKind> {
    if name == "pod"@ || name == "po"@ {
        Some(ResourceKind::Pod)
    } else if name == "replicationcontroller"@ || name == "rc"@ {
        Some(ResourceKind::ReplicationController)
    } else if name == "service"@ || name == "svc"@ {
        Some(ResourceKind::Service)
    } else if name == "daemonset"@ || name == "ds"@ {
        Some(ResourceKind::DaemonSet)
    } else if name == "deployment"@ || name == "deploy"@ {
        Some(ResourceKind::Deployment)
    } else if name == "replicaset"@ || name == "rs"@ {
        Some(ResourceKind::ReplicaSet)
    } else if name == "statefulset"@ || name == "sts"@ {
        Some(ResourceKind::StatefulSet)
    } else if name == "job"@ {
        Some(ResourceKind::Job)
    } else {
        None
    }
}

/// The kind that `name` is the full or the short name of.
fn parse_kind(name: &str) -> (kind: Option<ResourceKind>)
    ensures
        kind == kind_named(name@),
{
    if text::same(name, "pod") || text::same(name, "po") {
        Some(ResourceKind::Pod)
    } else if text::same(name, "replicationcontroller") || text::same(name, "rc") {
        Some(ResourceKind::ReplicationController)
    } else if text::same(name, "service") || text::same(name, "svc") {
        Some(ResourceKind::Service)
    } else if text::same(name, "daemonset") || text::same(name, "ds") {
        Some(ResourceKind::DaemonSet)
    } else if text::same(name, "deployment") || text::same(name, "deploy") {
        Some(ResourceKind::Deployment)
    } else if text::same(name, "replicaset") || text::same(name, "rs") {
        Some(ResourceKind::ReplicaSet)
    } else if text::same(name, "statefulset") || text::same(name, "sts") {
        Some(ResourceKind::StatefulSet)
    } else if text::same(name, "job") {
        Some(ResourceKind::Job)
    } else {
        None
    }
}

/// Whether `parsed` is the pattern query `arg`.
pub open spec fn is_name_query(parsed: Query, arg: Seq<char>) -> bool {
    parsed matches Query::PodNameRegex(p) && p@ == arg
}

/// What a query without a kind becomes once its pattern was handed to the compiler.
pub fn name_query(arg: &str, compiled: Result<Pattern, String>) -> (parsed: Result<
    Query,
    QueryParseError,
>)
    ensures
        match compiled {
            Ok(_) => parsed matches Ok(q) && is_name_query(q, arg@),
            Err(reason) => parsed matches Err(QueryParseError::UserRegex(e)) && e@ == reason@,
        },
{
    match compiled {
        Ok(_) => Ok(Query::PodNameRegex(arg.to_owned())),
        Err(reason) => Err(QueryParseError::UserRegex(reason)),
    }
}

/// Whether `error` is what a query that is not understood is answered with.
pub open spec fn is_query_error(arg: Seq<char>, error: QueryParseError) -> bool {
    match text::cut_once(arg, '/') {
        Some((kind_name, _)) => {
            &&& kind_named(kind_name) is None
            &&& error matches QueryParseError::UnknownKind(k) && k@ == kind_name
        },
        None => if !regex_limits::within_limit(arg) {
            error matches QueryParseError::UserRegex(e) && e@ == regex_limits::too_long_message(
                "pod query"@,
            )
        } else {
            &&& !regex_limits::pattern_compiles(arg)
            &&& error matches QueryParseError::UserRegex(e) && e@ == regex_limits::invalid_message(
                "pod query"@,
                regex_limits::pattern_error(arg),
            )
        },
    }
}

/// Parses a pod query: `kind/name` where it holds a slash, a pod name pattern otherwise.
pub fn parse_query(arg: &str) -> (parsed: Result<Query, QueryParseError>)
    ensures
        match text::cut_once(arg@, '/') {
            Some((kind_name, rest)) => match kind_named(kind_name) {
                Some(k) => parsed matches Ok(Query::LabelSelector { kind, name }) && kind == k
                    && name@ == rest,
                None => parsed is Err,
            },
            None => if regex_limits::within_limit(arg@) && regex_limits::pattern_compiles(arg@) {
                parsed matches Ok(q) && is_name_query(q, arg@)
            } else {
                parsed is Err
            },
        },
        parsed matches Err(e) ==> is_query_error(arg@, e),
{
    match text::split_once(arg, '/') {
        Some((kind_name, rest)) => match parse_kind(kind_name) {
            Some(kind) => Ok(Query::LabelSelector { kind, name: rest.to_owned() }),
            None => Err(QueryParseError::UnknownKind(kind_name.to_owned())),
        },
        None => name_query(arg, regex_limits::compile_user_regex("pod query", arg)),
    }
}

/// The selector that stands in for `kind/name` where no workload was asked: the pod's own name, or
/// the label `app`.
pub open spec fn selector_text(kind: ResourceKind, name: Seq<char>) -> Seq<char> {
    if kind == ResourceKind::Pod {
        "metadata.name="@ + name
    } else {
        "app="@ + name
    }
}

/// The selector that stands in for `kind/name` where no workload was asked.
pub fn label_selector_for(kind: ResourceKind, name: &str) -> (selector: String)
    ensures
        selector@ == selector_text(kind, name@),
{
    match kind {
        ResourceKind::Pod => "metadata.name=".to_owned().concat(name),
        _ => "app=".to_owned().concat(name),
    }
}


proof fn lemma_kind_names_differ()
    ensures
        "pod"@.len() == 3 && "pod"@[0] == 'p',
        "po"@.len() == 2 && "po"@[0] == 'p',
        "replicationcontroller"@.len() == 21,
        "rc"@.len() == 2 && "rc"@[0] == 'r' && "rc"@[1] == 'c',
        "service"@.len() == 7,
        "svc"@.len() == 3 && "svc"@[0] == 's' && "svc"@[1] == 'v',
        "daemonset"@.len() == 9,
        "ds"@.len() == 2 && "ds"@[0] == 'd',
        "deployment"@.len() == 10 && "deployment"@[0] == 'd',
        "deploy"@.len() == 6,
        "replicaset"@.len() == 10 && "replicaset"@[0] == 'r',
        "rs"@.len() == 2 && "rs"@[0] == 'r' && "rs"@[1] == 's',
        "statefulset"@.len() == 11,
        "sts"@.len() == 3 && "sts"@[0] == 's' && "sts"@[1] == 't',
        "job"@.len() == 3 && "job"@[0] == 'j',
{
    reveal_strlit("pod");
    reveal_strlit("po");
    reveal_strlit("replicationcontroller");
    reveal_strlit("rc");
    reveal_strlit("service");
    reveal_strlit("svc");
    reveal_strlit("daemonset");
    reveal_strlit("ds");
    reveal_strlit("deployment");
    reveal_strlit("deploy");
    reveal_strlit("replicaset");
    reveal_strlit("rs");
    reveal_strlit("statefulset");
    reveal_strlit("sts");
    reveal_strlit("job");
}

/// Each kind goes by its full name and, all but the job, by a short one; a kind has no further
/// name, and no name stands for two kinds.
pub proof fn law_names_of_kinds(name: Seq<char>)
    ensures
        kind_named(name) == Some(ResourceKind::Pod) <==> name == "pod"@ || name == "po"@,
        kind_named(name) == Some(ResourceKind::ReplicationController) <==> name
            == "replicationcontroller"@ || name == "rc"@,
        kind_named(name) == Some(ResourceKind::Service) <==> name == "service"@ || name == "svc"@,
        kind_named(name) == Some(ResourceKind::DaemonSet) <==> name == "daemonset"@ || name == "ds"@,
        kind_named(name) == Some(ResourceKind::Deployment) <==> name == "deployment"@ || name
            == "deploy"@,
        kind_named(name) == Some(ResourceKind::ReplicaSet) <==> name == "replicaset"@ || name
            == "rs"@,
        kind_named(name) == Some(ResourceKind::StatefulSet) <==> name == "statefulset"@ || name
            == "sts"@,
        kind_named(name) == Some(ResourceKind::Job) <==> name == "job"@,
{
    lemma_kind_names_differ();
}

/// The selector that stands in for a workload asks for the label `app` with the whole name as its
/// value, so two names never share one; a pod is asked for by its name field.
pub proof fn law_stand_in_selector(kind: ResourceKind, a: Seq<char>, b: Seq<char>)
    ensures
        "app="@.is_prefix_of(selector_text(kind, a)) <==> kind != ResourceKind::Pod,
        "metadata.name="@.is_prefix_of(selector_text(kind, a)) <==> kind == ResourceKind::Pod,
        a.is_suffix_of(selector_text(kind, a)),
        selector_text(kind, a).len() == a.len() + (if kind == ResourceKind::Pod {
            14nat
        } else {
            4nat
        }),
        selector_text(kind, a) == selector_text(kind, b) ==> a == b,
{
    reveal_strlit("app=");
    reveal_strlit("metadata.name=");
    let x = selector_text(kind, a);
    let y = selector_text(kind, b);
    let n: int = x.len() - a.len();
    if kind == ResourceKind::Pod {
        assert(x[0] == 'm');
        assert("app="@[0] == 'a');
        assert(x.take(14) =~= "metadata.name="@);
    } else {
        assert(x[0] == 'a');
        assert("metadata.name="@[0] == 'm');
        assert(x.take(4) =~= "app="@);
    }
    assert(x.skip(n) =~= a);
    if x == y {
        assert(y.skip(n) =~= b);
    }
}

/// A query with a slash is refused for its kind alone, which is named; one without a slash for its
/// pattern alone: for its length if it is too long, and otherwise for what the compiler says.
pub proof fn law_query_errors(arg: Seq<char>, error: QueryParseError)
    requires
        is_query_error(arg, error),
    ensures
        arg.contains('/') ==> (error matches QueryParseError::UnknownKind(k) && k@.push('/').is_prefix_of(
            arg,
        ) && kind_named(k@) is None),
        !arg.contains('/') ==> (error matches QueryParseError::UserRegex(e) && (if regex_limits::within_limit(
            arg,
        ) {
            !regex_limits::pattern_compiles(arg) && regex_limits::pattern_error(arg).is_suffix_of(e@)
        } else {
            "pod query"@.is_prefix_of(e@)
        })),
{
    text::law_cut_at_first_mark(arg, '/');
    if arg.contains('/') {
        let (before, after) = text::cut_once(arg, '/')->0;
        assert(arg.take(before.len() as int + 1) =~= before.push('/'));
    } else {
        let e = error->UserRegex_0;
        if regex_limits::within_limit(arg) {
            let reason = regex_limits::pattern_error(arg);
            assert(e@.skip(e@.len() - reason.len()) =~= reason);
        } else {
            assert(e@.take("pod query"@.len() as int) =~= "pod query"@);
        }
    }
}

/// What an error says ends with the reason, which stands alone where it was labelled before.
pub proof fn law_what_query_errors_say(reason: String)
    ensures
        QueryParseError::Regex(reason).text() == "invalid regex: "@ + reason@,
        QueryParseError::UserRegex(reason).text() == reason@,
        QueryParseError::UnknownKind(reason).text() == "unknown resource kind: "@ + reason@,
{
}

/// A query without a kind is kept as the pattern that it is.
pub proof fn law_pattern_query_is_kept(parsed: Query, arg: Seq<char>)
    requires
        is_name_query(parsed, arg),
    ensures
        parsed matches Query::PodNameRegex(pattern) && pattern@ == arg,
{
}

} // verus!
