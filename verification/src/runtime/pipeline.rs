//! The stages that a line goes through between the mux and the renderer.

use crate::pipeline::color_assign;
use crate::pipeline::color_assign::ColorAssignOpts;
use crate::pipeline::exit_watch;
use crate::pipeline::exit_watch::{ExitOnLevel, ExitWatchState};
use crate::pipeline::include_exclude;
use crate::pipeline::include_exclude::FilterOn;
use crate::pipeline::jq_evaluate;
use crate::pipeline::jq_evaluate::{CompiledFilter, QueryMode};
use crate::pipeline::json_annotate;
use crate::pipeline::level_classify;
use crate::pipeline::stage_order;
use crate::pipeline::stage_order::PipelineStageOrder;
use crate::regex_limits;
use crate::regex_limits::Pattern;
use crate::source::parsed_json;
use crate::source::{LogEvent, LogSourceError};
use vstd::prelude::*;

verus! {

/// What the stages go by.
pub struct PipelineStages {
    pub includes: Vec<Pattern>,
    pub excludes: Vec<Pattern>,
    pub filter_on: FilterOn,
    pub jq: Option<(CompiledFilter, QueryMode)>,
    pub level_key: Option<String>,
    pub color_assign: ColorAssignOpts,
    pub exit_on: Vec<Pattern>,
    pub exit_on_level: Option<ExitOnLevel>,
    pub needs_json_annotation: bool,
}

/// Whether messages are read as JSON: where a jq program or a level field asks for it.
pub fn needs_json_annotation(jq: &Option<(CompiledFilter, QueryMode)>, level_key: &Option<String>) -> (needed:
    bool)
    ensures
        needed == (*jq is Some || *level_key is Some),
{
    jq.is_some() || level_key.is_some()
}

fn needs_include_exclude(includes: &Vec<Pattern>, excludes: &Vec<Pattern>) -> (needed: bool)
    ensures
        needed == (includes@.len() > 0 || excludes@.len() > 0),
{
    includes.len() > 0 || excludes.len() > 0
}

fn needs_color_assign(opts: ColorAssignOpts) -> (needed: bool)
    ensures
        needed == (opts.pod_colors || opts.container_colors),
{
    opts.pod_colors || opts.container_colors
}

impl PipelineStages {
    /// Where the message filters and the early exit stand.
    pub open spec fn order(&self) -> PipelineStageOrder {
        stage_order::stage_order(
            self.filter_on,
            self.exit_on@.len() > 0,
            self.exit_on_level is Some,
        )
    }

    /// Whether the message filters show a line with this message.
    pub open spec fn shows(&self, message: Seq<char>) -> bool {
        include_exclude::shows_message(message, self.includes@, self.excludes@)
    }

    /// Whether the message filters hide a line before anything else looks at it but the early exit.
    pub open spec fn hides_early(&self, ev: LogEvent) -> bool {
        self.order().include_before_container && !self.shows(ev.message@)
    }

    /// Whether a line ends the run by its message. One that the message filters hide early does so
    /// only if the exit looks earlier.
    pub open spec fn exits_by_message(&self, ev: LogEvent) -> bool {
        &&& regex_limits::any_accepts(self.exit_on@, ev.message@)
        &&& self.hides_early(ev) ==> self.order().exit_on_message_before_filters
    }

    /// The level field, if any.
    pub open spec fn level_path(&self) -> Option<Seq<char>> {
        match self.level_key {
            Some(key) => Some(key@),
            None => None,
        }
    }

    /// Whether a line has become `read` once its message was read.
    pub open spec fn reads(&self, ev: LogEvent, read: LogEvent) -> bool {
        if self.needs_json_annotation {
            json_annotate::annotated(ev, self.jq is Some, read)
        } else {
            read == ev
        }
    }

    /// Whether a line has become `leveled` once its message was read and its level was told.
    pub open spec fn prepares(&self, ev: LogEvent, leveled: LogEvent) -> bool {
        exists|read: LogEvent| #[trigger]
            self.reads(ev, read) && match self.level_key {
                Some(_) => level_classify::classified(read, self.level_path(), leveled),
                None => leveled == read,
            }
    }

    /// Whether a line ends the run by its level.
    pub open spec fn exits_by_level(&self, leveled: LogEvent) -> bool {
        self.exit_on_level matches Some(least) && exit_watch::level_ends_run(Ok(leveled), least)
    }

    /// Whether the jq program makes `turned` of a line; without a program it stays as it is.
    pub open spec fn turns(&self, leveled: LogEvent, turned: Option<LogEvent>) -> bool {
        match self.jq {
            Some((filter, mode)) => jq_evaluate::jq_step(filter@, leveled, mode, turned),
            None => turned == Some(leveled),
        }
    }

    /// What is left of a line behind the jq program: nothing where the late message filters hide it,
    /// otherwise the line with its palette slots.
    pub open spec fn finishes(&self, turned: Option<LogEvent>) -> Option<LogEvent> {
        match turned {
            Some(ev) => if self.order().include_after_transform && !self.shows(ev.message@) {
                None
            } else {
                Some(color_assign::colored(ev, self.color_assign))
            },
            None => None,
        }
    }

    /// Whether a line may come out as `kept`, and end the run if `ends`.
    pub open spec fn passes(&self, ev: LogEvent, ends: bool, kept: Option<LogEvent>) -> bool {
        if self.hides_early(ev) {
            kept is None && ends == self.exits_by_message(ev)
        } else {
            exists|leveled: LogEvent, turned: Option<LogEvent>|
                #![trigger self.prepares(ev, leveled), self.turns(leveled, turned)]
                {
                    &&& self.prepares(ev, leveled)
                    &&& ends == (self.exits_by_message(ev) || self.exits_by_level(leveled))
                    &&& self.turns(leveled, turned)
                    &&& kept == self.finishes(turned)
                }
        }
    }
}

/// Takes an item through the stages. A line comes out changed, or not at all; an error passes. A line
/// that ends the run is noted.
pub fn apply_pipeline(
    item: Result<LogEvent, LogSourceError>,
    stages: &PipelineStages,
    exit_state: &mut ExitWatchState,
) -> (kept: Option<Result<LogEvent, LogSourceError>>)
    ensures
        match item {
            Ok(ev) => {
                &&& !(kept matches Some(Err(_)))
                &&& exists|ends: bool|
                    #![trigger stages.passes(ev, ends, kept_line(kept))]
                    stages.passes(ev, ends, kept_line(kept)) && final(exit_state).fired() == (
                    old(exit_state).fired() || ends)
            },
            Err(e) => {
                &&& kept == Some(Err::<LogEvent, LogSourceError>(e))
                &&& final(exit_state).fired() == old(exit_state).fired()
            },
        },
{
    let ghost line = item;
    let order = PipelineStageOrder::resolve(
        stages.filter_on,
        stages.exit_on.len() > 0,
        stages.exit_on_level.is_some(),
    );
    let mut item = item;
    let ghost before = exit_state.fired();
    if order.exit_on_message_before_filters {
        exit_watch::exit_watch_message(&item, &stages.exit_on, exit_state);
    }
    if order.include_before_container && needs_include_exclude(&stages.includes, &stages.excludes) {
        match include_exclude::include_exclude(item, &stages.includes, &stages.excludes) {
            Some(shown) => {
                item = shown;
            },
            None => {
                proof {
                    let ev = line->Ok_0;
                    assert(stages.hides_early(ev));
                    assert(stages.passes(ev, stages.exits_by_message(ev), None));
                }
                return None;
            },
        }
    }
    assert(item == line);
    assert(line matches Ok(ev) ==> !stages.hides_early(ev));
    if !order.exit_on_message_before_filters && stages.exit_on.len() > 0 {
        exit_watch::exit_watch_message(&item, &stages.exit_on, exit_state);
    }
    assert(line matches Ok(ev) ==> exit_state.fired() == (before || stages.exits_by_message(ev)));
    if stages.needs_json_annotation {
        item = json_annotate::json_annotate(item, stages.jq.is_some());
    }
    let ghost read = item;
    assert(line matches Ok(ev) ==> read is Ok && stages.reads(ev, read->Ok_0));
    match &stages.level_key {
        Some(key) => {
            item = level_classify::level_classify(item, Some(key.as_str()));
        },
        None => {},
    }
    let ghost leveled = item;
    assert(line matches Ok(ev) ==> leveled is Ok && stages.prepares(ev, leveled->Ok_0));
    match stages.exit_on_level {
        Some(least) => exit_watch::exit_watch_level(&item, least, exit_state),
        None => {},
    }
    match &stages.jq {
        Some((filter, mode)) => {
            match jq_evaluate::jq_evaluate(item, filter, *mode) {
                Some(turned) => {
                    item = turned;
                },
                None => {
                    proof {
                        let ev = line->Ok_0;
                        let ends = stages.exits_by_message(ev) || stages.exits_by_level(
                            leveled->Ok_0,
                        );
                        assert(stages.turns(leveled->Ok_0, None));
                        assert(stages.passes(ev, ends, None));
                    }
                    return None;
                },
            }
        },
        None => {},
    }
    let ghost turned = item;
    assert(line matches Ok(ev) ==> turned is Ok && stages.turns(
        leveled->Ok_0,
        Some(turned->Ok_0),
    ));
    if order.include_after_transform && needs_include_exclude(&stages.includes, &stages.excludes) {
        match include_exclude::include_exclude(item, &stages.includes, &stages.excludes) {
            Some(shown) => {
                item = shown;
            },
            None => {
                proof {
                    let ev = line->Ok_0;
                    let ends = stages.exits_by_message(ev) || stages.exits_by_level(
                        leveled->Ok_0,
                    );
                    assert(stages.finishes(Some(turned->Ok_0)) is None);
                    assert(stages.passes(ev, ends, None));
                }
                return None;
            },
        }
    }
    assert(item == turned);
    if needs_color_assign(stages.color_assign) {
        item = color_assign::color_assign(item, stages.color_assign);
    }
    proof {
        match line {
            Ok(ev) => {
                let ends = stages.exits_by_message(ev) || stages.exits_by_level(leveled->Ok_0);
                assert(stages.finishes(Some(turned->Ok_0)) == Some(item->Ok_0));
                assert(stages.passes(ev, ends, Some(item->Ok_0)));
                assert(kept_line(Some(item)) == Some(item->Ok_0));
            },
            Err(_) => {},
        }
    }
    Some(item)
}

/// The line that was kept, if any.
pub open spec fn kept_line(kept: Option<Result<LogEvent, LogSourceError>>) -> Option<LogEvent> {
    match kept {
        Some(Ok(ev)) => Some(ev),
        _ => None,
    }
}

/// A line keeps its source and its time on the way, and its message unless a jq program rewrites it.
/// So a line that could be rendered still can.
pub proof fn law_line_keeps_identity(stages: PipelineStages, ev: LogEvent, ends: bool, out: LogEvent)
    requires
        stages.passes(ev, ends, Some(out)),
    ensures
        out.source == ev.source,
        out.timestamp == ev.timestamp,
        ev.wf() ==> out.wf(),
        stages.jq is None ==> out.message == ev.message,
        stages.jq matches Some((_, QueryMode::Filter)) ==> out.message == ev.message,
{
    let (leveled, turned) = choose|leveled: LogEvent, turned: Option<LogEvent>|
        #![trigger stages.prepares(ev, leveled), stages.turns(leveled, turned)]
        stages.prepares(ev, leveled) && ends == (stages.exits_by_message(ev)
            || stages.exits_by_level(leveled)) && stages.turns(leveled, turned) && Some(out)
            == stages.finishes(turned);
    match stages.jq {
        Some((filter, mode)) => {
            jq_evaluate::law_jq_keeps_identity(filter@, leveled, mode, turned->Some_0);
        },
        None => {},
    }
}

/// A line whose message ends the run does so even if the message filters hide it, as long as they
/// look at the original line.
pub proof fn law_exit_is_not_hidden(stages: PipelineStages, ev: LogEvent, ends: bool, kept: Option<
    LogEvent,
>)
    requires
        stages.filter_on == FilterOn::Original,
        regex_limits::any_accepts(stages.exit_on@, ev.message@),
        stages.passes(ev, ends, kept),
    ensures
        ends,
{
    assert(stages.exit_on@.len() > 0);
    assert(stages.exits_by_message(ev));
}

/// A line that comes out is one that the message filters show: by its original message, or by what
/// the jq program made of it.
pub proof fn law_only_shown_lines_pass(stages: PipelineStages, ev: LogEvent, ends: bool, out: LogEvent)
    requires
        stages.passes(ev, ends, Some(out)),
    ensures
        if stages.filter_on == FilterOn::Original && stages.exit_on_level is None {
            stages.shows(ev.message@)
        } else {
            stages.shows(out.message@)
        },
{
    assert(!stages.hides_early(ev));
}

/// A line ends the run by its message exactly if an exit pattern at some position matches the message
/// that it came with, whether the line is shown or not.
pub proof fn law_message_exit_sees_every_line(stages: PipelineStages, ev: LogEvent)
    ensures
        stages.exits_by_message(ev) <==> exists|i: int|
            0 <= i < stages.exit_on@.len() && regex_limits::pattern_matches(
                (#[trigger] stages.exit_on@[i])@,
                ev.message@,
            ),
{
    exit_watch::law_any_message_pattern_ends_run(Ok(ev), stages.exit_on@);
}

/// Without a level field a line ends the run exactly if its message does or if its own level does,
/// whether the line is shown or not.
pub proof fn law_what_ends_the_run(
    stages: PipelineStages,
    ev: LogEvent,
    ends: bool,
    kept: Option<LogEvent>,
)
    requires
        stages.passes(ev, ends, kept),
    ensures
        exit_watch::message_ends_run(Ok(ev), stages.exit_on@) ==> ends,
        stages.exit_on_level is None ==> (ends <==> exit_watch::message_ends_run(
            Ok(ev),
            stages.exit_on@,
        )),
        stages.level_key is None ==> (stages.exit_on_level matches Some(least) ==> (ends <==> (
        exit_watch::message_ends_run(Ok(ev), stages.exit_on@) || exit_watch::level_ends_run(
            Ok(ev),
            least,
        )))),
{
    law_message_exit_sees_every_line(stages, ev);
    exit_watch::law_any_message_pattern_ends_run(Ok(ev), stages.exit_on@);
    if !stages.hides_early(ev) {
        let (leveled, turned) = choose|leveled: LogEvent, turned: Option<LogEvent>|
            #![trigger stages.prepares(ev, leveled), stages.turns(leveled, turned)]
            stages.prepares(ev, leveled) && ends == (stages.exits_by_message(ev)
                || stages.exits_by_level(leveled)) && stages.turns(leveled, turned) && kept
                == stages.finishes(turned);
        if stages.level_key is None {
            assert(leveled.level == ev.level);
        }
    }
}

/// Without a jq program a line comes out exactly if the message filters show its message, whichever
/// form of the line they look at; it comes out with the slots that are asked for, and otherwise only
/// its payload and its level may differ.
pub proof fn law_shown_lines_come_out(
    stages: PipelineStages,
    ev: LogEvent,
    ends: bool,
    kept: Option<LogEvent>,
)
    requires
        stages.jq is None,
        stages.passes(ev, ends, kept),
    ensures
        kept is Some <==> include_exclude::shows_message(
            ev.message@,
            stages.includes@,
            stages.excludes@,
        ),
        kept matches Some(out) ==> {
            let with_slots = color_assign::colored(ev, stages.color_assign);
            &&& out.palette_index == with_slots.palette_index
            &&& out.container_palette_index == with_slots.container_palette_index
            &&& out.message == ev.message
            &&& stages.level_key is None ==> out.level == ev.level
        },
{
    if !stages.hides_early(ev) {
        let (leveled, turned) = choose|leveled: LogEvent, turned: Option<LogEvent>|
            #![trigger stages.prepares(ev, leveled), stages.turns(leveled, turned)]
            stages.prepares(ev, leveled) && ends == (stages.exits_by_message(ev)
                || stages.exits_by_level(leveled)) && stages.turns(leveled, turned) && kept
                == stages.finishes(turned);
        assert(turned == Some(leveled));
        assert(leveled.message == ev.message);
    }
}

/// Nothing comes out of a line that the jq program drops, and filters on transformed lines look at
/// what the program made of it.
pub proof fn law_late_filters_look_at_what_jq_made(stages: PipelineStages, turned: Option<LogEvent>)
    requires
        stages.filter_on == FilterOn::Transformed,
    ensures
        turned is None ==> stages.finishes(turned) is None,
        turned matches Some(ev) ==> (stages.finishes(turned) is Some <==> include_exclude::shows_message(
            ev.message@,
            stages.includes@,
            stages.excludes@,
        )),
{
}

/// With a level field and no jq program the level of a line whose message is a JSON object is that of
/// the word at the field, and what that level is decides whether the line ends the run.
pub proof fn law_level_field_decides(
    stages: PipelineStages,
    key: String,
    ev: LogEvent,
    ends: bool,
    kept: Option<LogEvent>,
)
    requires
        stages.level_key == Some(key),
        stages.needs_json_annotation,
        stages.jq is None,
        json_annotate::looks_like_object(ev.message@),
        parsed_json::json_parses(ev.message@),
        stages.passes(ev, ends, kept),
    ensures
        match parsed_json::json_text_at(ev.message@, parsed_json::pointer_of(key@)) {
            Some(word) => {
                &&& kept matches Some(out) ==> (out.level matches Some(level)
                    && level_classify::is_level_of(word, level))
                &&& stages.exit_on_level matches Some(least) ==> (ends <==> (
                exit_watch::message_ends_run(Ok(ev), stages.exit_on@) || exit_watch::word_severity(word)
                    >= least.severity()))
            },
            None => kept matches Some(out) ==> out.level == ev.level,
        },
{
    law_message_exit_sees_every_line(stages, ev);
    exit_watch::law_any_message_pattern_ends_run(Ok(ev), stages.exit_on@);
    if !stages.hides_early(ev) {
        let (leveled, turned) = choose|leveled: LogEvent, turned: Option<LogEvent>|
            #![trigger stages.prepares(ev, leveled), stages.turns(leveled, turned)]
            stages.prepares(ev, leveled) && ends == (stages.exits_by_message(ev)
                || stages.exits_by_level(leveled)) && stages.turns(leveled, turned) && kept
                == stages.finishes(turned);
        assert(turned == Some(leveled));
        if let Some(word) = parsed_json::json_text_at(ev.message@, parsed_json::pointer_of(key@)) {
            exit_watch::law_classified_level_ranks_as_its_word(word, leveled.level->0);
        }
    }
}

/// A line that is not hidden early is handed to the jq program with the message that it came with, and
/// what comes out is what the program made of it.
pub proof fn law_program_is_run(
    stages: PipelineStages,
    filter: CompiledFilter,
    mode: QueryMode,
    ev: LogEvent,
    ends: bool,
    kept: Option<LogEvent>,
)
    requires
        stages.jq == Some((filter, mode)),
        !stages.hides_early(ev),
        stages.passes(ev, ends, kept),
    ensures
        exists|line: LogEvent, turned: Option<LogEvent>|
            {
                &&& #[trigger] jq_evaluate::jq_step(filter@, line, mode, turned)
                &&& line.message == ev.message
                &&& stages.level_key is None ==> line.level == ev.level
                &&& stages.needs_json_annotation ==> exists|read: LogEvent| #[trigger]
                    json_annotate::annotated(ev, true, read) && line.structured == read.structured
                &&& kept == stages.finishes(turned)
            },
        mode == QueryMode::Filter && ev.structured is None && !json_annotate::looks_like_object(
            ev.message@,
        ) ==> kept is None,
{
    let (leveled, turned) = choose|leveled: LogEvent, turned: Option<LogEvent>|
        #![trigger stages.prepares(ev, leveled), stages.turns(leveled, turned)]
        stages.prepares(ev, leveled) && ends == (stages.exits_by_message(ev)
            || stages.exits_by_level(leveled)) && stages.turns(leveled, turned) && kept
            == stages.finishes(turned);
    assert(jq_evaluate::jq_step(filter@, leveled, mode, turned));
    let read = choose|read: LogEvent| #[trigger]
        stages.reads(ev, read) && match stages.level_key {
            Some(_) => level_classify::classified(read, stages.level_path(), leveled),
            None => leveled == read,
        };
    assert(leveled.message == ev.message);
    if stages.needs_json_annotation {
        assert(json_annotate::annotated(ev, true, read));
    }
}

/// Filters that looked at the original line do not look again at what the jq program made of it; only
/// where the run may end by level they wait until then.
pub proof fn law_early_filters_look_once(stages: PipelineStages, ev: LogEvent)
    requires
        stages.filter_on == FilterOn::Original,
    ensures
        stages.exit_on_level is None ==> stages.finishes(Some(ev)) is Some,
        stages.exit_on_level is Some ==> !stages.hides_early(ev) && (stages.finishes(Some(ev)) is Some
            <==> include_exclude::shows_message(ev.message@, stages.includes@, stages.excludes@)),
        stages.finishes(Some(ev)) matches Some(out) ==> out == color_assign::colored(
            ev,
            stages.color_assign,
        ),
{
}

/// With a level field and a jq program the program is handed a line with the level of the word at the
/// field, where the message is a JSON object that has one, and that level decides whether the line ends
/// the run.
pub proof fn law_level_field_decides_before_jq(
    stages: PipelineStages,
    filter: CompiledFilter,
    mode: QueryMode,
    key: String,
    ev: LogEvent,
    ends: bool,
    kept: Option<LogEvent>,
    word: Seq<char>,
)
    requires
        stages.jq == Some((filter, mode)),
        stages.level_key == Some(key),
        stages.needs_json_annotation,
        !stages.hides_early(ev),
        json_annotate::looks_like_object(ev.message@),
        parsed_json::jaq_parses(ev.message@),
        parsed_json::jaq_found(
            ev.message@,
            false,
            Seq::empty(),
            parsed_json::path_keys(key@),
        ) == Some(word),
        stages.passes(ev, ends, kept),
    ensures
        exists|line: LogEvent, turned: Option<LogEvent>| #[trigger]
            jq_evaluate::jq_step(filter@, line, mode, turned) && kept == stages.finishes(turned) && (
            line.level matches Some(level) && level_classify::is_level_of(word, level)),
        stages.exit_on_level matches Some(least) ==> (ends <==> (exit_watch::message_ends_run(
            Ok(ev),
            stages.exit_on@,
        ) || exit_watch::word_severity(word) >= least.severity())),
{
    law_message_exit_sees_every_line(stages, ev);
    exit_watch::law_any_message_pattern_ends_run(Ok(ev), stages.exit_on@);
    let (leveled, turned) = choose|leveled: LogEvent, turned: Option<LogEvent>|
        #![trigger stages.prepares(ev, leveled), stages.turns(leveled, turned)]
        stages.prepares(ev, leveled) && ends == (stages.exits_by_message(ev)
            || stages.exits_by_level(leveled)) && stages.turns(leveled, turned) && kept
            == stages.finishes(turned);
    assert(jq_evaluate::jq_step(filter@, leveled, mode, turned));
    exit_watch::law_classified_level_ranks_as_its_word(word, leveled.level->0);
}

/// The line that was kept is the one that came out, if it was a line.
pub proof fn law_kept_line(ev: LogEvent, e: LogSourceError)
    ensures
        kept_line(Some(Ok(ev))) == Some(ev),
        kept_line(Some(Err(e))) is None,
        kept_line(None) is None,
{
}

} // verus!
