//! Pipeline specification: the run configuration compiled into the stages of the pipeline.

use crate::pipeline::color_assign::ColorAssignOpts;
use crate::pipeline::exit_watch::{ExitOnLevel, ExitWatchState};
use crate::pipeline::include_exclude::FilterOn;
use crate::pipeline::jq_evaluate;
use crate::pipeline::jq_evaluate::{validate_filter, CompiledFilter, JqError, QueryMode};
use crate::regex_limits;
use crate::regex_limits::Pattern;
use crate::render::setup;
use crate::runtime::config::{CoreRunConfig, FormatterChoice, RunError};
use crate::runtime::pipeline;
use crate::runtime::pipeline::{apply_pipeline, needs_json_annotation, PipelineStages};
use crate::source::{LogEvent, LogSourceError};
use crate::text;
use vstd::prelude::*;

verus! {

/// A compiled pipeline, with the note of a line that ended the run.
pub struct PipelineSpec {
    stages: PipelineStages,
    exit_watch: ExitWatchState,
}

/// Whether `stages` are those of a run configuration whose patterns all compile.
pub open spec fn are_stages_of(cfg: CoreRunConfig, stages: PipelineStages) -> bool {
    &&& regex_limits::sources(stages.includes@) == text::texts(cfg.includes@)
    &&& regex_limits::sources(stages.excludes@) == text::texts(cfg.excludes@)
    &&& regex_limits::sources(stages.exit_on@) == text::texts(cfg.exit_on@)
    &&& stages.filter_on == cfg.filter_on
    &&& stages.exit_on_level == cfg.exit_on_level
    &&& stages.level_key == cfg.level_key
    &&& stages.color_assign == setup::palette_opts(cfg.formatter, cfg.diff_container)
    &&& match (cfg.json_query, stages.jq) {
        (Some(expr), Some((filter, mode))) => filter@ == expr@ && mode == cfg.json_query_mode,
        (None, None) => true,
        _ => false,
    }
    &&& stages.needs_json_annotation == (cfg.json_query is Some || cfg.level_key is Some)
}

/// What is said of a list with a pattern that does not compile.
pub open spec fn bad_list(option: Seq<char>, reason: Seq<char>) -> Seq<char> {
    "invalid "@ + option + " regex: "@ + reason
}

/// Why a run configuration has no pipeline: the first of its patterns and its program, in the order
/// in which they are compiled, that does not compile.
pub open spec fn is_setup_error(cfg: CoreRunConfig, error: RunError) -> bool {
    match regex_limits::first_error(text::texts(cfg.includes@)) {
        Some(reason) => error matches RunError::Other(said) && said@ == bad_list(
            "--include"@,
            reason,
        ),
        None => match regex_limits::first_error(text::texts(cfg.excludes@)) {
            Some(reason) => error matches RunError::Other(said) && said@ == bad_list(
                "--exclude"@,
                reason,
            ),
            None => if cfg.json_query matches Some(expr) && !jq_evaluate::jq_compiles(expr@) {
                &&& cfg.json_query matches Some(expr)
                &&& error matches RunError::Jq(JqError::Parse(report))
                &&& report@ == jq_evaluate::jq_report(expr@)
            } else {
                match regex_limits::first_error(text::texts(cfg.exit_on@)) {
                    Some(reason) => error matches RunError::Other(said) && said@ == bad_list(
                        "--exit-on"@,
                        reason,
                    ),
                    None => false,
                }
            },
        },
    }
}

/// Whether every pattern and the program of a run configuration compile.
pub open spec fn compiles(cfg: CoreRunConfig) -> bool {
    &&& regex_limits::first_error(text::texts(cfg.includes@)) is None
    &&& regex_limits::first_error(text::texts(cfg.excludes@)) is None
    &&& cfg.json_query matches Some(expr) ==> jq_evaluate::jq_compiles(expr@)
    &&& regex_limits::first_error(text::texts(cfg.exit_on@)) is None
}

fn compile_list(patterns: &Vec<String>, option: &str) -> (compiled: Result<Vec<Pattern>, RunError>)
    ensures
        match compiled {
            Ok(list) => regex_limits::first_error(text::texts(patterns@)) is None
                && regex_limits::sources(list@) == text::texts(patterns@),
            Err(e) => {
                &&& regex_limits::first_error(text::texts(patterns@)) matches Some(reason)
                &&& e matches RunError::Other(said)
                &&& said@ == bad_list(option@, reason)
            },
        },
{
    match regex_limits::compile_all(patterns) {
        Ok(list) => Ok(list),
        Err(reason) => Err(
            RunError::Other(
                "invalid ".to_owned().concat(option).concat(" regex: ").concat(reason.as_str()),
            ),
        ),
    }
}

impl PipelineSpec {
    /// The stages.
    pub closed spec fn compiled(&self) -> PipelineStages {
        self.stages
    }

    /// Whether a line that ends the run has come by.
    pub closed spec fn fired(&self) -> bool {
        self.exit_watch.fired()
    }

    /// Compiles a run configuration.
    pub fn from_run_config(cfg: &CoreRunConfig, exit_watch: ExitWatchState) -> (spec: Result<
        Self,
        RunError,
    >)
        ensures
            spec is Ok == compiles(*cfg),
            match spec {
                Ok(s) => are_stages_of(*cfg, s.compiled()) && s.fired() == exit_watch.fired(),
                Err(e) => is_setup_error(*cfg, e),
            },
    {
        let includes = match compile_list(&cfg.includes, "--include") {
            Ok(list) => list,
            Err(e) => return Err(e),
        };
        let excludes = match compile_list(&cfg.excludes, "--exclude") {
            Ok(list) => list,
            Err(e) => return Err(e),
        };
        let jq = match &cfg.json_query {
            Some(expr) => match validate_filter(expr.as_str()) {
                Ok(filter) => Some((filter, cfg.json_query_mode)),
                Err(e) => return Err(RunError::Jq(e)),
            },
            None => None,
        };
        let exit_on = match compile_list(&cfg.exit_on, "--exit-on") {
            Ok(list) => list,
            Err(e) => return Err(e),
        };
        let annotate = needs_json_annotation(&jq, &cfg.level_key);
        Ok(
            PipelineSpec {
                stages: PipelineStages {
                    includes,
                    excludes,
                    filter_on: cfg.filter_on,
                    jq,
                    level_key: cfg.level_key.clone(),
                    color_assign: setup::color_assign_opts(&cfg.formatter, cfg.diff_container),
                    exit_on,
                    exit_on_level: cfg.exit_on_level,
                    needs_json_annotation: annotate,
                },
                exit_watch,
            },
        )
    }

    /// Takes an item through all stages.
    pub fn apply(&mut self, item: Result<LogEvent, LogSourceError>) -> (kept: Option<
        Result<LogEvent, LogSourceError>,
    >)
        ensures
            final(self).compiled() == old(self).compiled(),
            match item {
                Ok(ev) => {
                    &&& !(kept matches Some(Err(_)))
                    &&& exists|ends: bool|
                        #![trigger old(self).compiled().passes(ev, ends, pipeline::kept_line(kept))]
                        old(self).compiled().passes(ev, ends, pipeline::kept_line(kept))
                            && final(self).fired() == (old(self).fired() || ends)
                },
                Err(e) => {
                    &&& kept == Some(Err::<LogEvent, LogSourceError>(e))
                    &&& final(self).fired() == old(self).fired()
                },
            },
    {
        apply_pipeline(item, &self.stages, &mut self.exit_watch)
    }

    /// Whether a line that ends the run has come by.
    pub fn triggered(&self) -> (fired: bool)
        ensures
            fired == self.fired(),
    {
        self.exit_watch.triggered()
    }
}

/// Puts a pipeline together piece by piece.
pub struct PipelineSpecBuilder {
    pub includes: Vec<Pattern>,
    pub excludes: Vec<Pattern>,
    pub filter_on: FilterOn,
    pub jq: Option<(CompiledFilter, QueryMode)>,
    pub level_key: Option<String>,
    pub color_assign: ColorAssignOpts,
    pub exit_on: Vec<Pattern>,
    pub exit_on_level: Option<ExitOnLevel>,
}

/// Whether a builder asks for nothing: no pattern, no program, no colors, no exit.
pub open spec fn asks_nothing(builder: PipelineSpecBuilder) -> bool {
    &&& builder.includes@.len() == 0
    &&& builder.excludes@.len() == 0
    &&& builder.filter_on == FilterOn::Original
    &&& builder.jq is None
    &&& builder.level_key is None
    &&& builder.color_assign == (ColorAssignOpts {
        pod_colors: false,
        container_colors: false,
        diff_container: false,
    })
    &&& builder.exit_on@.len() == 0
    &&& builder.exit_on_level is None
}

impl Default for PipelineSpecBuilder {
    fn default() -> (builder: Self)
        ensures
            asks_nothing(builder),
    {
        PipelineSpecBuilder {
            includes: Vec::new(),
            excludes: Vec::new(),
            filter_on: FilterOn::Original,
            jq: None,
            level_key: None,
            color_assign: ColorAssignOpts {
                pod_colors: false,
                container_colors: false,
                diff_container: false,
            },
            exit_on: Vec::new(),
            exit_on_level: None,
        }
    }
}

impl PipelineSpecBuilder {
    /// Asks for nothing yet.
    pub fn new() -> (builder: Self)
        ensures
            asks_nothing(builder),
    {
        Self::default()
    }

    /// Shows only lines that one of these matches.
    pub fn with_includes(self, patterns: Vec<Pattern>) -> (builder: Self)
        ensures
            builder == (PipelineSpecBuilder { includes: patterns, ..self }),
    {
        let mut builder = self;
        builder.includes = patterns;
        builder
    }

    /// Hides lines that one of these matches.
    pub fn with_excludes(self, patterns: Vec<Pattern>) -> (builder: Self)
        ensures
            builder == (PipelineSpecBuilder { excludes: patterns, ..self }),
    {
        let mut builder = self;
        builder.excludes = patterns;
        builder
    }

    /// Which form of a line the message filters look at.
    pub fn with_filter_on(self, filter_on: FilterOn) -> (builder: Self)
        ensures
            builder == (PipelineSpecBuilder { filter_on, ..self }),
    {
        let mut builder = self;
        builder.filter_on = filter_on;
        builder
    }

    /// Runs a jq program.
    pub fn with_jq(self, jq: Option<(CompiledFilter, QueryMode)>) -> (builder: Self)
        ensures
            builder == (PipelineSpecBuilder { jq, ..self }),
    {
        let mut builder = self;
        builder.jq = jq;
        builder
    }

    /// Tells levels by a field.
    pub fn with_level_key(self, level_key: Option<String>) -> (builder: Self)
        ensures
            builder == (PipelineSpecBuilder { level_key, ..self }),
    {
        let mut builder = self;
        builder.level_key = level_key;
        builder
    }

    /// Assigns palette slots.
    pub fn with_color_assign(self, color_assign: ColorAssignOpts) -> (builder: Self)
        ensures
            builder == (PipelineSpecBuilder { color_assign, ..self }),
    {
        let mut builder = self;
        builder.color_assign = color_assign;
        builder
    }

    /// Ends the run at a line that one of these matches.
    pub fn with_exit_on(self, patterns: Vec<Pattern>) -> (builder: Self)
        ensures
            builder == (PipelineSpecBuilder { exit_on: patterns, ..self }),
    {
        let mut builder = self;
        builder.exit_on = patterns;
        builder
    }

    /// Ends the run at a line of at least this level.
    pub fn with_exit_on_level(self, level: Option<ExitOnLevel>) -> (builder: Self)
        ensures
            builder == (PipelineSpecBuilder { exit_on_level: level, ..self }),
    {
        let mut builder = self;
        builder.exit_on_level = level;
        builder
    }

    /// The stages that were asked for.
    pub open spec fn built(self) -> PipelineStages {
        PipelineStages {
            includes: self.includes,
            excludes: self.excludes,
            filter_on: self.filter_on,
            jq: self.jq,
            level_key: self.level_key,
            color_assign: self.color_assign,
            exit_on: self.exit_on,
            exit_on_level: self.exit_on_level,
            needs_json_annotation: self.jq is Some || self.level_key is Some,
        }
    }

    /// The pipeline that was asked for.
    pub fn build(self, exit_watch: ExitWatchState) -> (spec: PipelineSpec)
        ensures
            spec.fired() == exit_watch.fired(),
            spec.compiled() == self.built(),
    {
        let annotate = needs_json_annotation(&self.jq, &self.level_key);
        PipelineSpec {
            stages: PipelineStages {
                includes: self.includes,
                excludes: self.excludes,
                filter_on: self.filter_on,
                jq: self.jq,
                level_key: self.level_key,
                color_assign: self.color_assign,
                exit_on: self.exit_on,
                exit_on_level: self.exit_on_level,
                needs_json_annotation: annotate,
            },
            exit_watch,
        }
    }
}

/// A pipeline that was asked for nothing hands every line on as it is, and ends no run.
pub proof fn law_empty_pipeline_passes_all(
    builder: PipelineSpecBuilder,
    ev: LogEvent,
    ends: bool,
    kept: Option<LogEvent>,
)
    requires
        asks_nothing(builder),
        builder.built().passes(ev, ends, kept),
    ensures
        kept == Some(ev),
        !ends,
{
    let stages = builder.built();
    assert(!regex_limits::any_accepts(stages.exit_on@, ev.message@));
    assert(!regex_limits::any_accepts(stages.excludes@, ev.message@));
}

/// A setup error is told only of a configuration that does not compile.
pub proof fn law_setup_error_means_not_compiling(cfg: CoreRunConfig, error: RunError)
    requires
        is_setup_error(cfg, error),
    ensures
        !compiles(cfg),
{
}

/// A configuration compiles exactly if each of its patterns does, at whatever position, and so does
/// its program.
pub proof fn law_every_pattern_has_to_compile(cfg: CoreRunConfig)
    ensures
        compiles(cfg) <==> {
            &&& forall|i: int|
                0 <= i < cfg.includes@.len() ==> regex_limits::pattern_compiles(
                    (#[trigger] cfg.includes@[i])@,
                )
            &&& forall|i: int|
                0 <= i < cfg.excludes@.len() ==> regex_limits::pattern_compiles(
                    (#[trigger] cfg.excludes@[i])@,
                )
            &&& forall|i: int|
                0 <= i < cfg.exit_on@.len() ==> regex_limits::pattern_compiles(
                    (#[trigger] cfg.exit_on@[i])@,
                )
            &&& cfg.json_query matches Some(expr) ==> jq_evaluate::jq_compiles(expr@)
        },
{
    lemma_all_compile(cfg.includes@);
    lemma_all_compile(cfg.excludes@);
    lemma_all_compile(cfg.exit_on@);
}

proof fn lemma_all_compile(list: Seq<String>)
    ensures
        regex_limits::first_error(text::texts(list)) is None <==> forall|i: int|
            0 <= i < list.len() ==> regex_limits::pattern_compiles((#[trigger] list[i])@),
{
    let patterns = text::texts(list);
    regex_limits::law_first_error_counts(patterns);
    if forall|i: int| 0 <= i < list.len() ==> regex_limits::pattern_compiles((#[trigger] list[i])@) {
        assert forall|i: int| 0 <= i < patterns.len() implies regex_limits::pattern_compiles(
            #[trigger] patterns[i],
        ) by {
            assert(patterns[i] == list[i]@);
        }
    } else {
        let k = choose|k: int| 0 <= k < list.len() && !regex_limits::pattern_compiles(
            (#[trigger] list[k])@,
        );
        assert(patterns[k] == list[k]@);
        lemma_error_if_some_fails(patterns, k);
    }
}

proof fn lemma_error_if_some_fails(patterns: Seq<Seq<char>>, k: int)
    requires
        0 <= k < patterns.len(),
        !regex_limits::pattern_compiles(patterns[k]),
    ensures
        regex_limits::first_error(patterns) is Some,
    decreases k,
{
    if k > 0 && regex_limits::pattern_compiles(patterns[0]) {
        assert(patterns.skip(1)[k - 1] == patterns[k]);
        lemma_error_if_some_fails(patterns.skip(1), k - 1);
    }
}

/// What is said first is what is wrong with the patterns to show; only then come those to hide, then
/// the program, and last the patterns that end the run. Of each list the first pattern that does not
/// compile is named, behind the option that it was given by.
pub proof fn law_first_mistake_is_named(cfg: CoreRunConfig, error: RunError, i: int)
    requires
        is_setup_error(cfg, error),
    ensures
        0 <= i < cfg.includes@.len() && !regex_limits::pattern_compiles(cfg.includes@[i]@) && (forall|
            j: int,
        |
            0 <= j < i ==> regex_limits::pattern_compiles((#[trigger] cfg.includes@[j])@)) ==> (
        error matches RunError::Other(said) && said@ == "invalid "@ + "--include"@ + " regex: "@
            + regex_limits::pattern_error(cfg.includes@[i]@)),
        (forall|j: int|
            0 <= j < cfg.includes@.len() ==> regex_limits::pattern_compiles(
                (#[trigger] cfg.includes@[j])@,
            )) && 0 <= i < cfg.excludes@.len() && !regex_limits::pattern_compiles(
            cfg.excludes@[i]@,
        ) && (forall|j: int|
            0 <= j < i ==> regex_limits::pattern_compiles((#[trigger] cfg.excludes@[j])@)) ==> (
        error matches RunError::Other(said) && said@ == "invalid "@ + "--exclude"@ + " regex: "@
            + regex_limits::pattern_error(cfg.excludes@[i]@)),
{
    let shown = text::texts(cfg.includes@);
    let hidden = text::texts(cfg.excludes@);
    regex_limits::law_first_error_counts(shown);
    regex_limits::law_first_error_counts(hidden);
    lemma_all_compile(cfg.includes@);
    if 0 <= i < cfg.includes@.len() && !regex_limits::pattern_compiles(cfg.includes@[i]@) && (forall|
        j: int,
    |
        0 <= j < i ==> regex_limits::pattern_compiles((#[trigger] cfg.includes@[j])@)) {
        assert(shown[i] == cfg.includes@[i]@);
        assert forall|j: int| 0 <= j < i implies regex_limits::pattern_compiles(#[trigger] shown[j]) by {
            assert(shown[j] == cfg.includes@[j]@);
        }
    }
    if 0 <= i < cfg.excludes@.len() && !regex_limits::pattern_compiles(cfg.excludes@[i]@) && (forall|
        j: int,
    |
        0 <= j < i ==> regex_limits::pattern_compiles((#[trigger] cfg.excludes@[j])@)) {
        assert(hidden[i] == cfg.excludes@[i]@);
        assert forall|j: int| 0 <= j < i implies regex_limits::pattern_compiles(#[trigger] hidden[j]) by {
            assert(hidden[j] == cfg.excludes@[j]@);
        }
    }
}

/// The stages of a configuration go by each of its patterns at the same position, by its program and
/// its options, and read messages as JSON exactly if a program or a level field asks for it.
pub proof fn law_stages_follow_the_configuration(cfg: CoreRunConfig, stages: PipelineStages)
    requires
        are_stages_of(cfg, stages),
    ensures
        stages.includes@.len() == cfg.includes@.len(),
        forall|i: int|
            0 <= i < cfg.includes@.len() ==> (#[trigger] stages.includes@[i])@ == cfg.includes@[i]@,
        stages.excludes@.len() == cfg.excludes@.len(),
        forall|i: int|
            0 <= i < cfg.excludes@.len() ==> (#[trigger] stages.excludes@[i])@ == cfg.excludes@[i]@,
        stages.exit_on@.len() == cfg.exit_on@.len(),
        forall|i: int|
            0 <= i < cfg.exit_on@.len() ==> (#[trigger] stages.exit_on@[i])@ == cfg.exit_on@[i]@,
        stages.filter_on == cfg.filter_on,
        stages.exit_on_level == cfg.exit_on_level,
        stages.level_key == cfg.level_key,
        stages.jq is Some <==> cfg.json_query is Some,
        stages.jq matches Some((filter, mode)) ==> (cfg.json_query matches Some(expr) && filter@
            == expr@ && mode == cfg.json_query_mode),
        stages.needs_json_annotation <==> cfg.json_query is Some || cfg.level_key is Some,
        cfg.formatter matches FormatterChoice::Default { pod_colors, container_colors, .. } ==> {
            &&& stages.color_assign.pod_colors == pod_colors
            &&& stages.color_assign.container_colors == container_colors
            &&& stages.color_assign.diff_container == cfg.diff_container
        },
        !(cfg.formatter is Default) ==> !stages.color_assign.pod_colors
            && !stages.color_assign.container_colors,
{
    lemma_same_sources(stages.includes@, cfg.includes@);
    lemma_same_sources(stages.excludes@, cfg.excludes@);
    lemma_same_sources(stages.exit_on@, cfg.exit_on@);
}

proof fn lemma_same_sources(compiled: Seq<Pattern>, list: Seq<String>)
    requires
        regex_limits::sources(compiled) == text::texts(list),
    ensures
        compiled.len() == list.len(),
        forall|i: int| 0 <= i < list.len() ==> (#[trigger] compiled[i])@ == list[i]@,
{
    let a = regex_limits::sources(compiled);
    let b = text::texts(list);
    assert(a.len() == compiled.len() && b.len() == list.len());
    assert forall|i: int| 0 <= i < list.len() implies (#[trigger] compiled[i])@ == list[i]@ by {
        assert(a[i] == compiled[i]@ && b[i] == list[i]@);
    }
}

/// A builder builds what it was asked for last, and reads messages as JSON exactly if a program or a
/// level field asks for it.
pub proof fn law_builder_builds_what_was_asked(builder: PipelineSpecBuilder)
    ensures
        builder.built().includes == builder.includes,
        builder.built().excludes == builder.excludes,
        builder.built().filter_on == builder.filter_on,
        builder.built().jq == builder.jq,
        builder.built().level_key == builder.level_key,
        builder.built().color_assign == builder.color_assign,
        builder.built().exit_on == builder.exit_on,
        builder.built().exit_on_level == builder.exit_on_level,
        builder.built().needs_json_annotation <==> builder.jq is Some || builder.level_key is Some,
{
}

/// Where the patterns of the two message filters compile, the program is complained of next, and the
/// patterns that end the run only where the program compiles.
pub proof fn law_later_mistakes_come_later(cfg: CoreRunConfig, error: RunError, i: int)
    requires
        is_setup_error(cfg, error),
        forall|j: int|
            0 <= j < cfg.includes@.len() ==> regex_limits::pattern_compiles(
                (#[trigger] cfg.includes@[j])@,
            ),
        forall|j: int|
            0 <= j < cfg.excludes@.len() ==> regex_limits::pattern_compiles(
                (#[trigger] cfg.excludes@[j])@,
            ),
    ensures
        cfg.json_query matches Some(expr) ==> (!jq_evaluate::jq_compiles(expr@) ==> (
        error matches RunError::Jq(JqError::Parse(report)) && report@ == jq_evaluate::jq_report(expr@))),
        (cfg.json_query matches Some(expr) ==> jq_evaluate::jq_compiles(expr@)) && 0 <= i
            < cfg.exit_on@.len() && !regex_limits::pattern_compiles(cfg.exit_on@[i]@) && (forall|j: int|
            0 <= j < i ==> regex_limits::pattern_compiles((#[trigger] cfg.exit_on@[j])@)) ==> (
        error matches RunError::Other(said) && said@ == "invalid "@ + "--exit-on"@ + " regex: "@
            + regex_limits::pattern_error(cfg.exit_on@[i]@)),
{
    lemma_all_compile(cfg.includes@);
    lemma_all_compile(cfg.excludes@);
    let ending = text::texts(cfg.exit_on@);
    regex_limits::law_first_error_counts(ending);
    if 0 <= i < cfg.exit_on@.len() && !regex_limits::pattern_compiles(cfg.exit_on@[i]@) && (forall|
        j: int,
    |
        0 <= j < i ==> regex_limits::pattern_compiles((#[trigger] cfg.exit_on@[j])@)) {
        assert(ending[i] == cfg.exit_on@[i]@);
        assert forall|j: int| 0 <= j < i implies regex_limits::pattern_compiles(#[trigger] ending[j]) by {
            assert(ending[j] == cfg.exit_on@[j]@);
        }
    }
}

/// A builder that was asked for nothing looks at original lines and has no pattern, no program, no
/// level field, no colors and no exit.
pub proof fn law_nothing_was_asked(builder: PipelineSpecBuilder)
    requires
        asks_nothing(builder),
    ensures
        builder.filter_on == FilterOn::Original,
        builder.includes@.len() == 0,
        builder.excludes@.len() == 0,
        builder.exit_on@.len() == 0,
        builder.jq is None,
        builder.level_key is None,
        builder.exit_on_level is None,
        !builder.color_assign.pod_colors,
        !builder.color_assign.container_colors,
        !builder.color_assign.diff_container,
{
}

} // verus!
