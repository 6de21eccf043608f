//! Unified run resolution: pod query and namespace scope of a run.
//!
//! `selector`, `field_selector` and `node` are not resolved here; they go on unchanged into
//! [`super::pod_list::PodWatchPlanConfig`].

use crate::discovery::context;
use crate::discovery::context::{ContextError, ContextSelector, Kubeconfig};
use crate::discovery::scope;
use crate::text;
use vstd::prelude::*;

verus! {

/// CLI-agnostic inputs for unified run resolution.
#[derive(Debug, Clone, Copy, PartialEq, Eq)]
pub struct RunResolutionInput<'a> {
    pub query: Option<&'a str>,
    pub selector: Option<&'a str>,
    pub field_selector: Option<&'a str>,
    /// Optional node constraint; it takes no part in the resolution.
    pub node: Option<&'a str>,
    pub all_namespaces: bool,
    pub namespace_flags: &'a [String],
}

/// How query and namespace defaults were applied.
#[derive(Debug, Clone, Copy, PartialEq, Eq, Structural)]
pub struct RunResolutionValidation {
    /// Query was omitted and a label or field selector supplied the implicit `.*` default.
    pub implicit_query_from_selector: bool,
}

/// Resolved run scope.
#[derive(Debug, PartialEq, Eq)]
pub struct RunResolutionOutput {
    resolved_query: String,
    resolved_namespaces: Vec<String>,
    all_namespaces: bool,
    validation: RunResolutionValidation,
}

impl RunResolutionOutput {
    /// The query to use.
    pub closed spec fn query(&self) -> Seq<char> {
        self.resolved_query@
    }

    /// The namespaces to watch.
    pub closed spec fn namespaces(&self) -> Seq<String> {
        self.resolved_namespaces@
    }

    /// Whether every namespace is watched.
    pub closed spec fn everywhere(&self) -> bool {
        self.all_namespaces
    }

    /// How the defaults were applied.
    pub closed spec fn defaults(&self) -> RunResolutionValidation {
        self.validation
    }

    /// The query to use.
    pub fn resolved_query(&self) -> (query: &str)
        ensures
            query@ == self.query(),
    {
        self.resolved_query.as_str()
    }

    /// The namespaces to watch.
    pub fn resolved_namespaces(&self) -> (namespaces: &[String])
        ensures
            namespaces@ == self.namespaces(),
    {
        self.resolved_namespaces.as_slice()
    }

    /// Whether every namespace is watched.
    pub fn all_namespaces(&self) -> (everywhere: bool)
        ensures
            everywhere == self.everywhere(),
    {
        self.all_namespaces
    }

    /// How the defaults were applied.
    pub fn validation(&self) -> (validation: RunResolutionValidation)
        ensures
            validation == self.defaults(),
    {
        self.validation
    }

    /// The query, the namespaces and whether every namespace is watched.
    pub fn into_resolved(self) -> (resolved: (String, Vec<String>, bool))
        ensures
            resolved.0@ == self.query(),
            resolved.1@ == self.namespaces(),
            resolved.2 == self.everywhere(),
    {
        (self.resolved_query, self.resolved_namespaces, self.all_namespaces)
    }
}

/// Why a run could not be resolved.
#[derive(Debug)]
pub enum RunResolutionError {
    QueryRequired,
    InvalidNamespaceFlags,
    Context(ContextError),
}

impl RunResolutionError {
    /// What the error says.
    pub open spec fn text(&self) -> Seq<char> {
        match self {
            RunResolutionError::QueryRequired =>
                "pod query (QUERY) is required unless `-l` or `--field-selector` is set"@,
            RunResolutionError::InvalidNamespaceFlags => "namespace flag value must not be empty"@,
            RunResolutionError::Context(e) => e.text(),
        }
    }

    /// What the error says.
    pub fn message(&self) -> (text: String)
        ensures
            text@ == self.text(),
    {
        match self {
            RunResolutionError::QueryRequired =>
                "pod query (QUERY) is required unless `-l` or `--field-selector` is set".to_owned(),
            RunResolutionError::InvalidNamespaceFlags =>
                "namespace flag value must not be empty".to_owned(),
            RunResolutionError::Context(e) => e.message(),
        }
    }
}

/// Whether the query was omitted and a selector implies one.
fn implicit_query_from_selector(input: &RunResolutionInput<'_>) -> (implicit: bool)
    ensures
        implicit == (input.query is None && (input.selector is Some || input.field_selector is Some)),
{
    input.query.is_none() && (input.selector.is_some() || input.field_selector.is_some())
}

/// Resolve only the pod query positional (stern-like defaults).
pub fn resolve_run_query(input: &RunResolutionInput<'_>) -> (query: Result<
    String,
    RunResolutionError,
>)
    ensures
        match scope::query_text(input.query, input.selector, input.field_selector) {
            Some(q) => query matches Ok(s) && s@ == q,
            None => query matches Err(e) && e is QueryRequired,
        },
{
    match scope::pod_query(input.query, input.selector, input.field_selector) {
        Some(q) => Ok(q),
        None => Err(RunResolutionError::QueryRequired),
    }
}

/// Whether the namespace scope comes from the kubeconfig: neither every namespace nor any
/// namespace flag was asked for.
pub open spec fn scope_from_kubeconfig(input: RunResolutionInput<'_>) -> bool {
    &&& !input.all_namespaces
    &&& scope::explicit_namespaces(text::texts(input.namespace_flags@)).len() == 0
    &&& input.namespace_flags@.len() == 0
}

/// Whether `namespaces` is the scope of `input`, where reading the kubeconfig gave `loaded`.
pub open spec fn is_namespace_scope(
    input: RunResolutionInput<'_>,
    context: ContextSelector,
    loaded: Result<Kubeconfig, ContextError>,
    namespaces: Result<Seq<String>, RunResolutionError>,
) -> bool {
    let explicit = scope::explicit_namespaces(text::texts(input.namespace_flags@));
    if input.all_namespaces {
        namespaces matches Ok(list) && list.len() == 0
    } else if explicit.len() > 0 {
        namespaces matches Ok(list) && text::texts(list) == explicit
    } else if input.namespace_flags@.len() > 0 {
        namespaces matches Err(e) && e is InvalidNamespaceFlags
    } else {
        match loaded {
            Ok(cfg) => match namespaces {
                Ok(list) => list.len() == 1 && context::is_default_namespace(
                    cfg,
                    context,
                    Ok(list[0]),
                ),
                Err(RunResolutionError::Context(e)) => context::is_default_namespace(
                    cfg,
                    context,
                    Err(e),
                ),
                Err(_) => false,
            },
            Err(e) => namespaces == Err::<Seq<String>, RunResolutionError>(
                RunResolutionError::Context(e),
            ),
        }
    }
}

/// Whether the kubeconfig has to be read to know the namespace scope.
pub fn needs_kubeconfig(input: &RunResolutionInput<'_>) -> (needed: bool)
    ensures
        needed == scope_from_kubeconfig(*input),
{
    proof {
        if input.namespace_flags@.len() == 0 {
            assert(text::texts(input.namespace_flags@) =~= Seq::empty());
        }
    }
    !input.all_namespaces && input.namespace_flags.len() == 0
}

/// Resolve only namespace scope: all namespaces give an empty list, explicit flags their
/// namespaces, and otherwise the active context decides. `loaded` is what reading the kubeconfig
/// gave; it counts only where [`needs_kubeconfig`] says so.
pub fn resolve_run_namespaces(
    input: &RunResolutionInput<'_>,
    context: &ContextSelector,
    loaded: Result<Kubeconfig, ContextError>,
) -> (namespaces: Result<Vec<String>, RunResolutionError>)
    ensures
        is_namespace_scope(
            *input,
            *context,
            loaded,
            match namespaces {
                Ok(list) => Ok(list@),
                Err(e) => Err(e),
            },
        ),
{
    if input.all_namespaces {
        return Ok(Vec::new());
    }
    let explicit = scope::deduped_explicit_namespaces(input.namespace_flags);
    assert(text::texts(explicit@).len() == explicit@.len());
    if explicit.len() > 0 {
        return Ok(explicit);
    }
    if input.namespace_flags.len() > 0 {
        return Err(RunResolutionError::InvalidNamespaceFlags);
    }
    match scope::context_namespaces(context, loaded) {
        Ok(list) => Ok(list),
        Err(e) => Err(RunResolutionError::Context(e)),
    }
}

/// Resolve pod query and namespace scope together (stern-compatible defaults). A missing query is
/// reported before anything about namespaces.
pub fn resolve_run_input(
    input: &RunResolutionInput<'_>,
    context: &ContextSelector,
    loaded: Result<Kubeconfig, ContextError>,
) -> (resolved: Result<RunResolutionOutput, RunResolutionError>)
    ensures
        match scope::query_text(input.query, input.selector, input.field_selector) {
            None => resolved matches Err(e) && e is QueryRequired,
            Some(q) => {
                &&& is_namespace_scope(
                    *input,
                    *context,
                    loaded,
                    match resolved {
                        Ok(out) => Ok(out.namespaces()),
                        Err(e) => Err(e),
                    },
                )
                &&& resolved matches Ok(out) ==> {
                    &&& out.query() == q
                    &&& out.everywhere() == input.all_namespaces
                    &&& out.defaults().implicit_query_from_selector == (input.query is None)
                }
            },
        },
{
    let implicit_query = implicit_query_from_selector(input);
    let resolved_query = match resolve_run_query(input) {
        Ok(q) => q,
        Err(e) => {
            return Err(e);
        },
    };
    match resolve_run_namespaces(input, context, loaded) {
        Ok(resolved_namespaces) => Ok(
            RunResolutionOutput {
                resolved_query,
                resolved_namespaces,
                all_namespaces: input.all_namespaces,
                validation: RunResolutionValidation { implicit_query_from_selector: implicit_query },
            },
        ),
        Err(e) => Err(e),
    }
}

/// The node constraint takes no part in the resolution.
pub proof fn law_node_does_not_affect_resolution<'a>(
    input: RunResolutionInput<'a>,
    node: Option<&'a str>,
    context: ContextSelector,
    loaded: Result<Kubeconfig, ContextError>,
    namespaces: Result<Seq<String>, RunResolutionError>,
)
    ensures
        ({
            let other = RunResolutionInput { node, ..input };
            &&& is_namespace_scope(input, context, loaded, namespaces) == is_namespace_scope(
                other,
                context,
                loaded,
                namespaces,
            )
            &&& scope::query_text(input.query, input.selector, input.field_selector)
                == scope::query_text(other.query, other.selector, other.field_selector)
        }),
{
}

/// Where the kubeconfig is not needed, what reading it gave does not matter.
pub proof fn law_unneeded_kubeconfig_does_not_matter(
    input: RunResolutionInput<'_>,
    context: ContextSelector,
    loaded: Result<Kubeconfig, ContextError>,
    other: Result<Kubeconfig, ContextError>,
    namespaces: Result<Seq<String>, RunResolutionError>,
)
    requires
        !scope_from_kubeconfig(input),
    ensures
        is_namespace_scope(input, context, loaded, namespaces) == is_namespace_scope(
            input,
            context,
            other,
            namespaces,
        ),
{
}

/// Where every namespace is meant, no namespace is named, whatever the flags and the kubeconfig say.
pub proof fn law_every_namespace_names_none(
    input: RunResolutionInput<'_>,
    context: ContextSelector,
    loaded: Result<Kubeconfig, ContextError>,
    namespaces: Result<Seq<String>, RunResolutionError>,
)
    requires
        input.all_namespaces,
        is_namespace_scope(input, context, loaded, namespaces),
    ensures
        namespaces matches Ok(list) && list.len() == 0,
        !scope_from_kubeconfig(input),
{
}

/// A name that some flag spells is among the namespaces of the run, and every namespace of the run is
/// one that some flag spells.
pub proof fn law_flags_name_the_namespaces(
    input: RunResolutionInput<'_>,
    context: ContextSelector,
    loaded: Result<Kubeconfig, ContextError>,
    namespaces: Result<Seq<String>, RunResolutionError>,
    i: int,
    j: int,
    name: Seq<char>,
)
    requires
        !input.all_namespaces,
        0 <= i < input.namespace_flags@.len(),
        0 <= j < text::parts(input.namespace_flags@[i]@, ',').len(),
        text::trimmed(text::parts(input.namespace_flags@[i]@, ',')[j]) == name,
        name.len() > 0,
        is_namespace_scope(input, context, loaded, namespaces),
    ensures
        namespaces matches Ok(list) && text::texts(list).contains(name) && text::texts(list)
            == scope::explicit_namespaces(text::texts(input.namespace_flags@)),
        !scope_from_kubeconfig(input),
{
    let flags = text::texts(input.namespace_flags@);
    assert(flags[i] == input.namespace_flags@[i]@);
    assert(text::trimmed(text::parts(flags[i], ',')[j]) == name);
    scope::law_every_flag_counts(flags, name);
    let explicit = scope::explicit_namespaces(flags);
    assert(explicit[explicit.index_of(name)] == name);
}

/// Flags of which no segment spells a name are an error, and never mean the namespace of the context.
pub proof fn law_blank_flags_are_an_error(
    input: RunResolutionInput<'_>,
    context: ContextSelector,
    loaded: Result<Kubeconfig, ContextError>,
    namespaces: Result<Seq<String>, RunResolutionError>,
)
    requires
        !input.all_namespaces,
        input.namespace_flags@.len() > 0,
        forall|i: int, j: int|
            0 <= i < input.namespace_flags@.len() && 0 <= j < text::parts(
                input.namespace_flags@[i]@,
                ',',
            ).len() ==> text::trimmed(
                #[trigger] text::parts(input.namespace_flags@[i]@, ',')[j],
            ).len() == 0,
        is_namespace_scope(input, context, loaded, namespaces),
    ensures
        namespaces matches Err(e) && e is InvalidNamespaceFlags,
        !scope_from_kubeconfig(input),
{
    let flags = text::texts(input.namespace_flags@);
    let explicit = scope::explicit_namespaces(flags);
    if explicit.len() > 0 {
        let name = explicit[0];
        assert(explicit.contains(name));
        scope::law_every_flag_counts(flags, name);
        let (i, j) = choose|i: int, j: int|
            {
                &&& 0 <= i < flags.len()
                &&& 0 <= j < text::parts(flags[i], ',').len()
                &&& text::trimmed(#[trigger] text::parts(flags[i], ',')[j]) == name
            };
        assert(flags[i] == input.namespace_flags@[i]@);
        assert(text::trimmed(text::parts(input.namespace_flags@[i]@, ',')[j]).len() == 0);
    }
}

/// Without flags the run has one namespace, that of the context, and a kubeconfig that could not be
/// read is an error.
pub proof fn law_context_names_the_namespace(
    input: RunResolutionInput<'_>,
    context: ContextSelector,
    loaded: Result<Kubeconfig, ContextError>,
    namespaces: Result<Seq<String>, RunResolutionError>,
)
    requires
        !input.all_namespaces,
        input.namespace_flags@.len() == 0,
        is_namespace_scope(input, context, loaded, namespaces),
    ensures
        scope_from_kubeconfig(input),
        namespaces matches Ok(list) ==> list.len() == 1 && loaded is Ok && context::is_default_namespace(
            loaded->Ok_0,
            context,
            Ok(list[0]),
        ),
        loaded matches Err(e) ==> namespaces == Err::<Seq<String>, RunResolutionError>(
            RunResolutionError::Context(e),
        ),
{
    let flags = text::texts(input.namespace_flags@);
    assert(scope::segments(flags) =~= Seq::<Seq<char>>::empty());
    assert(scope::explicit_namespaces(flags) =~= Seq::<Seq<char>>::empty());
}

} // verus!
