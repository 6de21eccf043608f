//! Watch scope resolution: pod query and namespace scope before list/watch planning.

use crate::discovery::context;
use crate::discovery::context::{ContextError, ContextSelector, Kubeconfig};
use crate::discovery::scope;
use crate::text;
use vstd::prelude::*;

verus! {

/// CLI-agnostic inputs for watch scope resolution.
#[derive(Debug, Clone, Copy, PartialEq, Eq)]
pub struct WatchScopeInput<'a> {
    pub query: Option<&'a str>,
    pub selector: Option<&'a str>,
    pub field_selector: Option<&'a str>,
    pub all_namespaces: bool,
    pub namespace_flags: &'a [String],
}

/// Resolved watch scope.
#[derive(Debug, PartialEq, Eq)]
pub struct WatchScopeResolved {
    pub query: String,
    pub namespaces: Vec<String>,
    pub all_namespaces: bool,
}

/// Why a watch scope could not be resolved.
#[derive(Debug)]
pub enum WatchScopeError {
    QueryRequired,
    Context(ContextError),
}

impl WatchScopeError {
    /// What the error says.
    pub open spec fn text(&self) -> Seq<char> {
        match self {
            WatchScopeError::QueryRequired =>
                "pod query (QUERY) is required unless `-l` or `--field-selector` is set"@,
            WatchScopeError::Context(e) => e.text(),
        }
    }

    /// What the error says.
    pub fn message(&self) -> (text: String)
        ensures
            text@ == self.text(),
    {
        match self {
            WatchScopeError::QueryRequired =>
                "pod query (QUERY) is required unless `-l` or `--field-selector` is set".to_owned(),
            WatchScopeError::Context(e) => e.message(),
        }
    }
}

/// Resolve the pod query positional, applying stern-like defaults.
pub fn resolve_pod_query(input: &WatchScopeInput<'_>) -> (query: Result<String, WatchScopeError>)
    ensures
        match scope::query_text(input.query, input.selector, input.field_selector) {
            Some(q) => query matches Ok(s) && s@ == q,
            None => query matches Err(e) && e is QueryRequired,
        },
{
    match scope::pod_query(input.query, input.selector, input.field_selector) {
        Some(q) => Ok(q),
        None => Err(WatchScopeError::QueryRequired),
    }
}

/// Whether `namespaces` is the scope of `input`, where reading the kubeconfig gave `loaded`.
pub open spec fn is_watch_scope(
    input: WatchScopeInput<'_>,
    context: ContextSelector,
    loaded: Result<Kubeconfig, ContextError>,
    namespaces: Result<Seq<String>, WatchScopeError>,
) -> bool {
    let explicit = scope::explicit_namespaces(text::texts(input.namespace_flags@));
    if input.all_namespaces {
        namespaces matches Ok(list) && list.len() == 0
    } else if explicit.len() > 0 {
        namespaces matches Ok(list) && text::texts(list) == explicit
    } else {
        match loaded {
            Ok(cfg) => match namespaces {
                Ok(list) => list.len() == 1 && context::is_default_namespace(
                    cfg,
                    context,
                    Ok(list[0]),
                ),
                Err(WatchScopeError::Context(e)) => context::is_default_namespace(
                    cfg,
                    context,
                    Err(e),
                ),
                Err(_) => false,
            },
            Err(e) => namespaces == Err::<Seq<String>, WatchScopeError>(WatchScopeError::Context(e)),
        }
    }
}

/// Resolve namespace scope: all namespaces give an empty list, explicit flags their namespaces,
/// and otherwise the active context decides. `loaded` is what reading the kubeconfig gave.
pub fn resolve_namespaces(
    input: &WatchScopeInput<'_>,
    context: &ContextSelector,
    loaded: Result<Kubeconfig, ContextError>,
) -> (namespaces: Result<Vec<String>, WatchScopeError>)
    ensures
        is_watch_scope(
            *input,
            *context,
            loaded,
            match namespaces {
                Ok(list) => Ok(list@),
                Err(e) => Err(e),
            },
        ),
{
    if input.all_namespaces {
        return Ok(Vec::new());
    }
    let explicit = scope::deduped_explicit_namespaces(input.namespace_flags);
    assert(text::texts(explicit@).len() == explicit@.len());
    if explicit.len() > 0 {
        return Ok(explicit);
    }
    match scope::context_namespaces(context, loaded) {
        Ok(list) => Ok(list),
        Err(e) => Err(WatchScopeError::Context(e)),
    }
}

/// Resolve pod query and namespace scope together; a missing query is reported first.
pub fn resolve_watch_scope(
    input: &WatchScopeInput<'_>,
    context: &ContextSelector,
    loaded: Result<Kubeconfig, ContextError>,
) -> (resolved: Result<WatchScopeResolved, WatchScopeError>)
    ensures
        match scope::query_text(input.query, input.selector, input.field_selector) {
            None => resolved matches Err(e) && e is QueryRequired,
            Some(q) => {
                &&& is_watch_scope(
                    *input,
                    *context,
                    loaded,
                    match resolved {
                        Ok(out) => Ok(out.namespaces@),
                        Err(e) => Err(e),
                    },
                )
                &&& resolved matches Ok(out) ==> out.query@ == q && out.all_namespaces
                    == input.all_namespaces
            },
        },
{
    let query = match resolve_pod_query(input) {
        Ok(q) => q,
        Err(e) => {
            return Err(e);
        },
    };
    match resolve_namespaces(input, context, loaded) {
        Ok(namespaces) => Ok(
            WatchScopeResolved { query, namespaces, all_namespaces: input.all_namespaces },
        ),
        Err(e) => Err(e),
    }
}

/// Where every namespace is meant, no namespace is named, whatever the flags and the kubeconfig say.
pub proof fn law_all_namespaces_name_none(
    input: WatchScopeInput<'_>,
    context: ContextSelector,
    loaded: Result<Kubeconfig, ContextError>,
    namespaces: Result<Seq<String>, WatchScopeError>,
)
    requires
        input.all_namespaces,
        is_watch_scope(input, context, loaded, namespaces),
    ensures
        namespaces matches Ok(list) && list.len() == 0,
{
}

/// Where a flag names a namespace, exactly the namespaces that the flags name are the scope; the
/// kubeconfig does not matter, not even one that could not be read.
pub proof fn law_flags_make_the_scope(
    input: WatchScopeInput<'_>,
    context: ContextSelector,
    loaded: Result<Kubeconfig, ContextError>,
    namespaces: Result<Seq<String>, WatchScopeError>,
    i: int,
    j: int,
    name: Seq<char>,
)
    requires
        !input.all_namespaces,
        0 <= i < input.namespace_flags@.len(),
        0 <= j < text::parts(input.namespace_flags@[i]@, ',').len(),
        text::trimmed(text::parts(input.namespace_flags@[i]@, ',')[j]) == name,
        name.len() > 0,
        is_watch_scope(input, context, loaded, namespaces),
    ensures
        namespaces matches Ok(list) && text::texts(list).contains(name) && text::texts(list)
            == scope::explicit_namespaces(text::texts(input.namespace_flags@)),
{
    let flags = text::texts(input.namespace_flags@);
    assert(flags[i] == input.namespace_flags@[i]@);
    assert(text::trimmed(text::parts(flags[i], ',')[j]) == name);
    scope::law_every_flag_counts(flags, name);
    let explicit = scope::explicit_namespaces(flags);
    assert(explicit[explicit.index_of(name)] == name);
}

/// Without flags the scope is one namespace, that of the context, and a kubeconfig that could not be
/// read is an error.
pub proof fn law_context_makes_the_scope(
    input: WatchScopeInput<'_>,
    context: ContextSelector,
    loaded: Result<Kubeconfig, ContextError>,
    namespaces: Result<Seq<String>, WatchScopeError>,
)
    requires
        !input.all_namespaces,
        input.namespace_flags@.len() == 0,
        is_watch_scope(input, context, loaded, namespaces),
    ensures
        namespaces matches Ok(list) ==> list.len() == 1 && loaded is Ok && context::is_default_namespace(
            loaded->Ok_0,
            context,
            Ok(list[0]),
        ),
        loaded matches Err(e) ==> namespaces == Err::<Seq<String>, WatchScopeError>(
            WatchScopeError::Context(e),
        ),
{
    let flags = text::texts(input.namespace_flags@);
    assert(scope::segments(flags) =~= Seq::<Seq<char>>::empty());
    assert(scope::explicit_namespaces(flags) =~= Seq::<Seq<char>>::empty());
}

} // verus!
