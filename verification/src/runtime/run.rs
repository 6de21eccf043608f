//! A run: what it is set up from, what ends it, and what it comes to.

use crate::discovery::pod::Pod;
use crate::key_set::KeySet;
use crate::regex_limits::Pattern;
use crate::render::highlight;
use crate::render::setup;
use crate::render::setup::{build_line_formatter, BaseFormatter, BuiltFormatter};
use crate::pipeline::exit_watch::ExitWatchState;
use crate::regex_limits;
use crate::runtime::config;
use crate::runtime::config::{log_request_permits, CoreRunConfig, RunError, RunOutcome};
use crate::runtime::pod_meta_cache;
use crate::runtime::pod_meta_cache::PodMetaCache;
use crate::runtime::spec;
use crate::runtime::spec::PipelineSpec;
use crate::runtime::watch_admission;
use crate::runtime::watch_admission::{AdmissionRules, WatchAdmissionPolicy};
use crate::source::{ContextName, SourceKey};
use crate::text;
use vstd::prelude::*;

verus! {

/// How long a task may take to end after the run was cancelled, before it is aborted
/// (milliseconds).
pub const SHUTDOWN_TIMEOUT_MS: u64 = 150;

/// Which pods are asked for.
#[derive(Debug)]
pub enum ApiScope {
    All,
    Namespace(String),
}

/// Which pods are asked for: those of a single namespace as such, otherwise all.
pub fn api_scope(all_namespaces: bool, namespaces: &Vec<String>) -> (scope: ApiScope)
    ensures
        if !all_namespaces && namespaces@.len() == 1 {
            scope matches ApiScope::Namespace(ns) && ns@ == namespaces@[0]@
        } else {
            scope is All
        },
{
    if !all_namespaces && namespaces.len() == 1 {
        ApiScope::Namespace(namespaces[0].clone())
    } else {
        ApiScope::All
    }
}

/// What a run works with.
pub struct PreparedRun {
    pub pipeline: PipelineSpec,
    pub scope: ApiScope,
    pub admission: WatchAdmissionPolicy,
    pub permits: usize,
    pub formatter: BuiltFormatter,
}

/// What a configuration admits, where its patterns compile.
pub open spec fn rules_of(cfg: CoreRunConfig, context: Seq<char>, pod_regex: Option<Pattern>) -> AdmissionRules {
    AdmissionRules {
        context,
        pod_regex: match pod_regex {
            Some(re) => Some(re@),
            None => None,
        },
        exclude_pod: text::texts(cfg.exclude_pod@),
        allowed_ns: watch_admission::allowed_namespaces(
            text::texts(cfg.namespaces@),
            cfg.all_namespaces,
        ),
        pod_condition: cfg.pod_condition,
        container: cfg.container@,
        exclude_container: text::texts(cfg.exclude_container@),
    }
}

/// What is said of the first pattern for pods or containers that does not compile, if any.
pub open spec fn admission_error(cfg: CoreRunConfig) -> Option<Seq<char>> {
    match regex_limits::first_error(text::texts(cfg.exclude_pod@)) {
        Some(reason) => Some(reason),
        None => if !regex_limits::pattern_compiles(cfg.container@) {
            Some(regex_limits::pattern_error(cfg.container@))
        } else {
            regex_limits::first_error(text::texts(cfg.exclude_container@))
        },
    }
}

/// What is said of the patterns to emphasize, if they do not compile and are needed.
pub open spec fn highlight_error(cfg: CoreRunConfig) -> Option<Seq<char>> {
    if cfg.formatter is Default {
        match highlight::alternation(text::texts(cfg.includes@), text::texts(cfg.highlight@)) {
            Some(pattern) if !regex_limits::pattern_compiles(pattern) => Some(
                regex_limits::pattern_error(pattern),
            ),
            _ => None,
        }
    } else {
        None
    }
}

/// Sets a run up from its configuration: the pipeline, then which pods are shown, then the
/// formatter. The error is that of the first that cannot be set up.
pub fn prepare_run(cfg: &CoreRunConfig, context_name: &ContextName, pod_regex: Option<Pattern>) -> (prepared:
    Result<PreparedRun, RunError>)
    ensures
        prepared is Ok == (spec::compiles(*cfg) && admission_error(*cfg) is None && highlight_error(
            *cfg,
        ) is None),
        match prepared {
            Ok(run) => {
                &&& spec::are_stages_of(*cfg, run.pipeline.compiled())
                &&& !run.pipeline.fired()
                &&& if !cfg.all_namespaces && cfg.namespaces@.len() == 1 {
                    run.scope matches ApiScope::Namespace(ns) && ns@ == cfg.namespaces@[0]@
                } else {
                    run.scope is All
                }
                &&& run.admission.wf()
                &&& run.admission.rules() == rules_of(*cfg, context_name.0@, pod_regex)
                &&& run.permits == config::at_least_one(cfg.fwd.max_log_requests)
                &&& exists|inner: BaseFormatter|
                    #![trigger setup::is_choice(cfg.formatter, inner)]
                    setup::is_choice(cfg.formatter, inner) && setup::is_wrapped(
                        cfg.formatter,
                        text::texts(cfg.includes@),
                        text::texts(cfg.highlight@),
                        inner,
                        Ok(run.formatter),
                    )
            },
            Err(e) => if !spec::compiles(*cfg) {
                spec::is_setup_error(*cfg, e)
            } else {
                match admission_error(*cfg) {
                    Some(reason) => e matches RunError::Other(said) && said@
                        == "invalid watch admission regex: "@ + reason,
                    None => {
                        &&& highlight_error(*cfg) matches Some(reason)
                        &&& e matches RunError::Other(said)
                        &&& said@ == "invalid highlight/include regex: "@ + reason
                    },
                }
            },
        },
{
    let pipeline = match PipelineSpec::from_run_config(cfg, ExitWatchState::new()) {
        Ok(pipeline) => pipeline,
        Err(e) => return Err(e),
    };
    let scope = api_scope(cfg.all_namespaces, &cfg.namespaces);
    let pod_condition = match &cfg.pod_condition {
        Some(filter) => Some(filter.clone()),
        None => None,
    };
    let admission = match WatchAdmissionPolicy::try_new(
        context_name.clone(),
        pod_regex,
        &cfg.exclude_pod,
        &cfg.namespaces,
        cfg.all_namespaces,
        cfg.container.as_str(),
        &cfg.exclude_container,
        pod_condition,
    ) {
        Ok(policy) => policy,
        Err(reason) => return Err(
            RunError::Other(
                "invalid watch admission regex: ".to_owned().concat(reason.as_str()),
            ),
        ),
    };
    let formatter = match build_line_formatter(&cfg.formatter, &cfg.includes, &cfg.highlight) {
        Ok(formatter) => formatter,
        Err(e) => return Err(RunError::Other(e.message())),
    };
    Ok(
        PreparedRun {
            pipeline,
            scope,
            admission,
            permits: log_request_permits(cfg.fwd.max_log_requests),
            formatter,
        },
    )
}

/// The metadata of the admitted pods among these, one after the other.
pub open spec fn with_admitted(
    cache: Map<Seq<Seq<char>>, (Option<String>, Map<Seq<Seq<char>>, String>)>,
    rules: AdmissionRules,
    pods: Seq<Pod>,
) -> Map<Seq<Seq<char>>, (Option<String>, Map<Seq<Seq<char>>, String>)>
    decreases pods.len(),
{
    if pods.len() == 0 {
        cache
    } else {
        let before = with_admitted(cache, rules, pods.drop_last());
        if rules.admits(pods.last()) {
            pod_meta_cache::with_pod(before, rules.context, pods.last())
        } else {
            before
        }
    }
}

/// The streams of a run that does not follow: those of the admitted pods, whose metadata is
/// remembered.
pub fn list_streams(policy: &WatchAdmissionPolicy, pods: &Vec<Pod>, cache: &mut PodMetaCache) -> (keys:
    KeySet<SourceKey>)
    requires
        policy.wf(),
        old(cache).wf(),
        forall|i: int| 0 <= i < pods@.len() ==> (#[trigger] pods@[i]).wf(),
    ensures
        final(cache).wf(),
        final(cache)@ == with_admitted(old(cache)@, policy.rules(), pods@),
        keys.wf(),
        keys@ == policy.rules().snapshot(pods@),
{
    let ghost before = cache@;
    let mut i: usize = 0;
    assert(pods@.take(0) =~= Seq::empty());
    while i < pods.len()
        invariant
            i <= pods@.len(),
            policy.wf(),
            cache.wf(),
            forall|j: int| 0 <= j < pods@.len() ==> (#[trigger] pods@[j]).wf(),
            cache@ == with_admitted(before, policy.rules(), pods@.take(i as int)),
        decreases pods@.len() - i,
    {
        assert(pods@.take(i + 1).drop_last() =~= pods@.take(i as int));
        assert(pods@.take(i + 1).last() == pods@[i as int]);
        if policy.admit_pod(&pods[i]) {
            cache.update_from_pod(policy.context_name(), &pods[i]);
        }
        i += 1;
    }
    assert(pods@.take(i as int) =~= pods@);
    policy.collect_snapshot(pods)
}

/// What a run is waiting for.
#[derive(Debug)]
pub enum RunEvent {
    /// A stream could not start, as there are too many.
    LimitReached,
    /// Nobody is left who could start a stream.
    NoMoreStreams,
    /// The pipeline came to its end; with what went wrong, if anything did.
    PipelineEnded(Option<String>),
    /// The run was cancelled.
    Cancelled,
}

/// What is known of the end of a run.
#[derive(Debug)]
pub struct RunEnd {
    pub limit_hit: bool,
    pub pipe_joined: bool,
    pub pipe_error: Option<String>,
}

impl RunEnd {
    /// Nothing is known yet.
    pub fn new() -> (end: Self)
        ensures
            !end.limit_hit,
            !end.pipe_joined,
            end.pipe_error is None,
    {
        RunEnd { limit_hit: false, pipe_joined: false, pipe_error: None }
    }

    /// Takes what the run was waiting for; answers whether the run has to be cancelled.
    pub fn on_event(&mut self, event: RunEvent) -> (cancel: bool)
        ensures
            cancel == (event is LimitReached || event is PipelineEnded),
            final(self).limit_hit == (old(self).limit_hit || event is LimitReached),
            final(self).pipe_joined == (old(self).pipe_joined || event is PipelineEnded),
            final(self).pipe_error == match event {
                RunEvent::PipelineEnded(Some(reason)) => Some(reason),
                _ => old(self).pipe_error,
            },
    {
        match event {
            RunEvent::LimitReached => {
                self.limit_hit = true;
                true
            },
            RunEvent::NoMoreStreams => false,
            RunEvent::PipelineEnded(error) => {
                self.pipe_joined = true;
                match error {
                    Some(reason) => {
                        self.pipe_error = Some(reason);
                    },
                    None => {},
                }
                true
            },
            RunEvent::Cancelled => false,
        }
    }

    /// Takes what went wrong with the pipeline while the run was shut down. That it was aborted is
    /// no failure.
    pub fn on_pipeline_shut_down(&mut self, error: Option<String>, aborted: bool)
        ensures
            final(self).limit_hit == old(self).limit_hit,
            final(self).pipe_joined,
            final(self).pipe_error == if error is Some && !aborted {
                error
            } else {
                old(self).pipe_error
            },
    {
        self.pipe_joined = true;
        if !aborted {
            match error {
                Some(reason) => {
                    self.pipe_error = Some(reason);
                },
                None => {},
            }
        }
    }

    /// What a run comes to: a failed pipeline counts before too many streams, these before a line
    /// that ended the run, and only then the run has ended well.
    pub fn outcome(&self, exit_triggered: bool, had_source_errors: bool) -> (outcome: Result<
        RunOutcome,
        RunError,
    >)
        ensures
            match self.pipe_error {
                Some(reason) => outcome matches Err(RunError::Other(said)) && said@
                    == "pipeline forward task failed: "@ + reason@,
                None => if self.limit_hit {
                    outcome matches Err(RunError::Other(said)) && said@
                        == "max concurrent log streams reached (--max-log-requests)"@
                } else if exit_triggered {
                    outcome matches Err(RunError::ExitOnTriggered)
                } else {
                    outcome == Ok::<RunOutcome, RunError>(RunOutcome { had_source_errors })
                },
            },
    {
        match &self.pipe_error {
            Some(reason) => {
                return Err(
                    RunError::Other(
                        "pipeline forward task failed: ".to_owned().concat(reason.as_str()),
                    ),
                );
            },
            None => {},
        }
        if self.limit_hit {
            return Err(
                RunError::Other(
                    "max concurrent log streams reached (--max-log-requests)".to_owned(),
                ),
            );
        }
        if exit_triggered {
            return Err(RunError::ExitOnTriggered);
        }
        Ok(RunOutcome { had_source_errors })
    }
}

/// Every stream of a run that does not follow finds the metadata of its pod.
pub proof fn law_listed_streams_have_meta(
    cache: Map<Seq<Seq<char>>, (Option<String>, Map<Seq<Seq<char>>, String>)>,
    rules: AdmissionRules,
    pods: Seq<Pod>,
)
    ensures
        crate::runtime::pod_lifecycle::all_have_meta(
            rules.snapshot(pods),
            with_admitted(cache, rules, pods),
        ),
    decreases pods.len(),
{
    if pods.len() > 0 {
        let rest = pods.drop_last();
        law_listed_streams_have_meta(cache, rules, rest);
        assert forall|k: Seq<Seq<char>>| #[trigger]
            rules.snapshot(pods).contains(k) implies k.len() == 5 && with_admitted(
            cache,
            rules,
            pods,
        ).contains_key(crate::source::pod_meta::locator_key(k)) by {
            let i = choose|i: int|
                0 <= i < pods.len() && rules.admits(#[trigger] pods[i]) && rules.streams(
                    pods[i],
                ).contains(k);
            if i < rest.len() {
                assert(rest[i] == pods[i]);
                assert(rules.shows(rest, k));
                assert(rules.snapshot(rest).contains(k));
            } else {
                crate::runtime::pod_lifecycle::lemma_streams(rules, pods[i], k);
            }
        }
    }
}

/// What a configuration admits is told by its own patterns, each at its position, by its namespaces
/// and by its condition.
pub proof fn law_rules_follow_the_configuration(
    cfg: CoreRunConfig,
    context: Seq<char>,
    pod_regex: Option<Pattern>,
)
    ensures
        ({
            let rules = rules_of(cfg, context, pod_regex);
            &&& rules.context == context
            &&& rules.exclude_pod.len() == cfg.exclude_pod@.len()
            &&& forall|i: int|
                0 <= i < cfg.exclude_pod@.len() ==> #[trigger] rules.exclude_pod[i]
                    == cfg.exclude_pod@[i]@
            &&& rules.exclude_container.len() == cfg.exclude_container@.len()
            &&& forall|i: int|
                0 <= i < cfg.exclude_container@.len() ==> #[trigger] rules.exclude_container[i]
                    == cfg.exclude_container@[i]@
            &&& rules.container == cfg.container@
            &&& rules.pod_condition == cfg.pod_condition
            &&& rules.pod_regex is Some <==> pod_regex is Some
            &&& pod_regex matches Some(re) ==> rules.pod_regex == Some(re@)
            &&& rules.allowed_ns is Some <==> !cfg.all_namespaces && cfg.namespaces@.len() > 1
            &&& rules.allowed_ns matches Some(allowed) ==> forall|i: int|
                0 <= i < cfg.namespaces@.len() ==> allowed.contains((#[trigger] cfg.namespaces@[i])@)
        }),
{
    let names = text::texts(cfg.namespaces@);
    let rules = rules_of(cfg, context, pod_regex);
    if let Some(allowed) = rules.allowed_ns {
        assert forall|i: int| 0 <= i < cfg.namespaces@.len() implies allowed.contains(
            (#[trigger] cfg.namespaces@[i])@,
        ) by {
            assert(names[i] == cfg.namespaces@[i]@);
            watch_admission::law_namespaces_that_are_allowed(names, names[i]);
        }
    }
}

/// Patterns for pods are complained of before the pattern of the containers to show, and that before
/// the patterns of the containers to hide.
pub proof fn law_admission_errors_in_order(cfg: CoreRunConfig, i: int)
    requires
        0 <= i < cfg.exclude_pod@.len(),
        !regex_limits::pattern_compiles(cfg.exclude_pod@[i]@),
        forall|j: int|
            0 <= j < i ==> regex_limits::pattern_compiles((#[trigger] cfg.exclude_pod@[j])@),
    ensures
        admission_error(cfg) == Some(regex_limits::pattern_error(cfg.exclude_pod@[i]@)),
{
    let patterns = text::texts(cfg.exclude_pod@);
    assert(patterns[i] == cfg.exclude_pod@[i]@);
    assert forall|j: int| 0 <= j < i implies regex_limits::pattern_compiles(#[trigger] patterns[j]) by {
        assert(patterns[j] == cfg.exclude_pod@[j]@);
    }
    regex_limits::law_first_error_counts(patterns);
}

/// Where every pattern for pods compiles, the pattern of the containers to show is next; where that
/// compiles too, there is an error only if a pattern of the containers to hide does not compile.
pub proof fn law_container_errors_come_next(cfg: CoreRunConfig)
    requires
        forall|j: int|
            0 <= j < cfg.exclude_pod@.len() ==> regex_limits::pattern_compiles(
                (#[trigger] cfg.exclude_pod@[j])@,
            ),
    ensures
        !regex_limits::pattern_compiles(cfg.container@) ==> admission_error(cfg) == Some(
            regex_limits::pattern_error(cfg.container@),
        ),
        regex_limits::pattern_compiles(cfg.container@) && (forall|j: int|
            0 <= j < cfg.exclude_container@.len() ==> regex_limits::pattern_compiles(
                (#[trigger] cfg.exclude_container@[j])@,
            )) ==> admission_error(cfg) is None,
{
    let patterns = text::texts(cfg.exclude_pod@);
    assert forall|j: int| 0 <= j < patterns.len() implies regex_limits::pattern_compiles(
        #[trigger] patterns[j],
    ) by {
        assert(patterns[j] == cfg.exclude_pod@[j]@);
    }
    regex_limits::law_first_error_counts(patterns);
    let hidden = text::texts(cfg.exclude_container@);
    regex_limits::law_first_error_counts(hidden);
    if forall|j: int|
        0 <= j < cfg.exclude_container@.len() ==> regex_limits::pattern_compiles(
            (#[trigger] cfg.exclude_container@[j])@,
        ) {
        assert forall|j: int| 0 <= j < hidden.len() implies regex_limits::pattern_compiles(
            #[trigger] hidden[j],
        ) by {
            assert(hidden[j] == cfg.exclude_container@[j]@);
        }
    }
}

/// Only the default formatter emphasizes anything, so only there the patterns have to compile.
pub proof fn law_only_default_output_is_emphasized(cfg: CoreRunConfig)
    requires
        !(cfg.formatter is Default),
    ensures
        highlight_error(cfg) is None,
{
}

/// Listing remembers nothing of a pod that is not shown.
pub proof fn law_hidden_pods_are_not_remembered(
    cache: Map<Seq<Seq<char>>, (Option<String>, Map<Seq<Seq<char>>, String>)>,
    rules: AdmissionRules,
    pods: Seq<Pod>,
    l: Seq<Seq<char>>,
)
    requires
        forall|i: int|
            0 <= i < pods.len() && rules.admits(#[trigger] pods[i]) ==> pods[i].locator(rules.context)
                != Some(l),
    ensures
        with_admitted(cache, rules, pods).contains_key(l) == cache.contains_key(l),
        cache.contains_key(l) ==> with_admitted(cache, rules, pods)[l] == cache[l],
    decreases pods.len(),
{
    if pods.len() > 0 {
        let rest = pods.drop_last();
        assert forall|i: int| 0 <= i < rest.len() && rules.admits(#[trigger] rest[i]) implies rest[i].locator(
            rules.context,
        ) != Some(l) by {
            assert(rest[i] == pods[i]);
        }
        law_hidden_pods_are_not_remembered(cache, rules, rest, l);
        assert(pods.last() == pods[pods.len() - 1]);
    }
}

/// Of the default output it is said exactly where the alternation of the patterns to show and to
/// emphasize does not compile, and then what is wrong with it.
pub proof fn law_emphasis_has_to_compile(cfg: CoreRunConfig)
    requires
        cfg.formatter is Default,
    ensures
        match highlight::alternation(text::texts(cfg.includes@), text::texts(cfg.highlight@)) {
            Some(pattern) => {
                &&& highlight_error(cfg) is None <==> regex_limits::pattern_compiles(pattern)
                &&& highlight_error(cfg) matches Some(reason) ==> reason
                    == regex_limits::pattern_error(pattern)
            },
            None => highlight_error(cfg) is None,
        },
{
}

} // verus!
