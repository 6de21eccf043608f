//! Formatter and color setup of a run.

use crate::format_display;
use crate::format_display::TimestampZone;
use crate::pipeline::color_assign::ColorAssignOpts;
use crate::regex_limits;
use crate::regex_limits::Pattern;
use crate::render::default_renderer::DefaultLineFormatter;
use crate::render::ext_json_renderer::ExtJsonLineFormatter;
use crate::render::highlight;
use crate::render::highlight::SternHighlightLineFormatter;
use crate::render::json_renderer::JsonLineFormatter;
use crate::render::raw_renderer::RawLineFormatter;
use crate::render::LineFormatter;
use crate::runtime::config::FormatterChoice;
use crate::source::LogEvent;
use crate::text;
use vstd::prelude::*;

verus! {

/// Why no formatter could be set up.
#[derive(Debug)]
pub enum RenderSetupError {
    /// The alternation of all patterns to emphasize does not compile.
    HighlightRegex(String),
}

impl RenderSetupError {
    /// What the error says.
    pub open spec fn text(&self) -> Seq<char> {
        match self {
            RenderSetupError::HighlightRegex(reason) => "invalid highlight/include regex: "@
                + reason@,
        }
    }

    /// What the error says.
    pub fn message(&self) -> (text: String)
        ensures
            text@ == self.text(),
    {
        match self {
            RenderSetupError::HighlightRegex(reason) => {
                "invalid highlight/include regex: ".to_owned().concat(reason.as_str())
            },
        }
    }
}

/// Palette assignment applies to the default formatter only.
pub open spec fn palette_opts(formatter: FormatterChoice, diff_container: bool) -> ColorAssignOpts {
    match formatter {
        FormatterChoice::Default { pod_colors, container_colors, .. } => ColorAssignOpts {
            pod_colors,
            container_colors,
            diff_container,
        },
        _ => ColorAssignOpts { pod_colors: false, container_colors: false, diff_container: false },
    }
}

/// Which palette slots the pipeline assigns for a formatter.
pub fn color_assign_opts(formatter: &FormatterChoice, diff_container: bool) -> (opts: ColorAssignOpts)
    ensures
        opts == palette_opts(*formatter, diff_container),
{
    match formatter {
        FormatterChoice::Default { pod_colors, container_colors, .. } => ColorAssignOpts {
            pod_colors: *pod_colors,
            container_colors: *container_colors,
            diff_container,
        },
        _ => ColorAssignOpts { pod_colors: false, container_colors: false, diff_container: false },
    }
}

/// One of the formatters.
#[derive(Debug)]
pub enum BaseFormatter {
    Default(DefaultLineFormatter),
    Json(JsonLineFormatter),
    ExtJson(ExtJsonLineFormatter),
    Raw(RawLineFormatter),
}

impl LineFormatter for BaseFormatter {
    open spec fn formats(&self, event: LogEvent, before: Seq<char>, after: Seq<char>) -> bool {
        match self {
            BaseFormatter::Default(f) => f.formats(event, before, after),
            BaseFormatter::Json(f) => f.formats(event, before, after),
            BaseFormatter::ExtJson(f) => f.formats(event, before, after),
            BaseFormatter::Raw(f) => f.formats(event, before, after),
        }
    }

    fn format_into(&self, event: &LogEvent, buf: &mut String) {
        match self {
            BaseFormatter::Default(f) => f.format_into(event, buf),
            BaseFormatter::Json(f) => f.format_into(event, buf),
            BaseFormatter::ExtJson(f) => f.format_into(event, buf),
            BaseFormatter::Raw(f) => f.format_into(event, buf),
        }
    }
}

/// A formatter, with or without emphasis on top.
pub enum BuiltFormatter {
    Plain(BaseFormatter),
    Highlighted(SternHighlightLineFormatter<BaseFormatter>),
}

impl LineFormatter for BuiltFormatter {
    open spec fn formats(&self, event: LogEvent, before: Seq<char>, after: Seq<char>) -> bool {
        match self {
            BuiltFormatter::Plain(f) => f.formats(event, before, after),
            BuiltFormatter::Highlighted(f) => f.formats(event, before, after),
        }
    }

    fn format_into(&self, event: &LogEvent, buf: &mut String) {
        match self {
            BuiltFormatter::Plain(f) => f.format_into(event, buf),
            BuiltFormatter::Highlighted(f) => f.format_into(event, buf),
        }
    }
}

/// Whether `built` is the formatter that `choice` asks for. Extended JSON is never colored.
pub open spec fn is_choice(choice: FormatterChoice, built: BaseFormatter) -> bool {
    match choice {
        FormatterChoice::Default {
            timestamp_style,
            timestamp_zone,
            color_enabled,
            pod_colors,
            container_colors,
        } => {
            &&& built matches BaseFormatter::Default(f)
            &&& f.timestamp_style == timestamp_style
            &&& format_display::same_zone(f.timestamp_zone, timestamp_zone)
            &&& f.color_enabled == color_enabled
            &&& f.pod_colors == pod_colors
            &&& f.container_colors == container_colors
        },
        FormatterChoice::Json => built is Json,
        FormatterChoice::ExtJson { all_namespaces } => built == BaseFormatter::ExtJson(
            ExtJsonLineFormatter { color_enabled: false, all_namespaces, pretty: false },
        ),
        FormatterChoice::PpExtJson { all_namespaces } => built == BaseFormatter::ExtJson(
            ExtJsonLineFormatter { color_enabled: false, all_namespaces, pretty: true },
        ),
        FormatterChoice::Raw => built is Raw,
    }
}

/// The formatter that was chosen.
pub fn line_formatter(choice: &FormatterChoice) -> (built: BaseFormatter)
    ensures
        is_choice(*choice, built),
{
    match choice {
        FormatterChoice::Default {
            timestamp_style,
            timestamp_zone,
            color_enabled,
            pod_colors,
            container_colors,
        } => BaseFormatter::Default(
            DefaultLineFormatter {
                timestamp_style: *timestamp_style,
                timestamp_zone: timestamp_zone.clone(),
                color_enabled: *color_enabled,
                pod_colors: *pod_colors,
                container_colors: *container_colors,
            },
        ),
        FormatterChoice::Json => BaseFormatter::Json(JsonLineFormatter),
        FormatterChoice::ExtJson { all_namespaces } => BaseFormatter::ExtJson(
            ExtJsonLineFormatter {
                color_enabled: false,
                all_namespaces: *all_namespaces,
                pretty: false,
            },
        ),
        FormatterChoice::PpExtJson { all_namespaces } => BaseFormatter::ExtJson(
            ExtJsonLineFormatter {
                color_enabled: false,
                all_namespaces: *all_namespaces,
                pretty: true,
            },
        ),
        FormatterChoice::Raw => BaseFormatter::Raw(RawLineFormatter),
    }
}

/// Whether `built` is `inner` with the emphasis that the patterns ask for: none unless the default
/// formatter was chosen and there is a pattern to emphasize.
pub open spec fn is_wrapped(
    choice: FormatterChoice,
    includes: Seq<Seq<char>>,
    highlights: Seq<Seq<char>>,
    inner: BaseFormatter,
    built: Result<BuiltFormatter, RenderSetupError>,
) -> bool {
    if !(choice is Default) {
        built == Ok::<BuiltFormatter, RenderSetupError>(BuiltFormatter::Plain(inner))
    } else {
        match highlight::alternation(includes, highlights) {
            None => built == Ok::<BuiltFormatter, RenderSetupError>(BuiltFormatter::Plain(inner)),
            Some(pattern) => if regex_limits::pattern_compiles(pattern) {
                &&& built matches Ok(BuiltFormatter::Highlighted(f))
                &&& f.inner == inner
                &&& f.re@ == pattern
            } else {
                &&& built matches Err(RenderSetupError::HighlightRegex(reason))
                &&& reason@ == regex_limits::pattern_error(pattern)
            },
        }
    }
}

/// Puts emphasis on top of a formatter, once its pattern was compiled.
pub fn wrap_compiled(
    choice: &FormatterChoice,
    compiled: Result<Option<Pattern>, String>,
    inner: BaseFormatter,
) -> (built: Result<BuiltFormatter, RenderSetupError>)
    ensures
        if !(*choice is Default) {
            built == Ok::<BuiltFormatter, RenderSetupError>(BuiltFormatter::Plain(inner))
        } else {
            match compiled {
                Ok(None) => built == Ok::<BuiltFormatter, RenderSetupError>(
                    BuiltFormatter::Plain(inner),
                ),
                Ok(Some(re)) => built == Ok::<BuiltFormatter, RenderSetupError>(
                    BuiltFormatter::Highlighted(SternHighlightLineFormatter { inner, re }),
                ),
                Err(reason) => built == Err::<BuiltFormatter, RenderSetupError>(
                    RenderSetupError::HighlightRegex(reason),
                ),
            }
        },
{
    match choice {
        FormatterChoice::Default { .. } => match compiled {
            Ok(None) => Ok(BuiltFormatter::Plain(inner)),
            Ok(Some(re)) => Ok(
                BuiltFormatter::Highlighted(SternHighlightLineFormatter::new(inner, re)),
            ),
            Err(reason) => Err(RenderSetupError::HighlightRegex(reason)),
        },
        _ => Ok(BuiltFormatter::Plain(inner)),
    }
}

/// Puts emphasis on what the patterns match on top of a formatter, for the default formatter only.
pub fn wrap_formatter_with_stern_highlight(
    choice: &FormatterChoice,
    includes: &Vec<String>,
    highlights: &Vec<String>,
    inner: BaseFormatter,
) -> (built: Result<BuiltFormatter, RenderSetupError>)
    ensures
        is_wrapped(*choice, text::texts(includes@), text::texts(highlights@), inner, built),
{
    match choice {
        FormatterChoice::Default { .. } => wrap_compiled(
            choice,
            highlight::compile_stern_highlight_regex(includes, highlights),
            inner,
        ),
        _ => Ok(BuiltFormatter::Plain(inner)),
    }
}

/// The formatter that was chosen, with emphasis on what the patterns match.
pub fn build_line_formatter(
    choice: &FormatterChoice,
    includes: &Vec<String>,
    highlights: &Vec<String>,
) -> (built: Result<BuiltFormatter, RenderSetupError>)
    ensures
        exists|inner: BaseFormatter|
            #![trigger is_choice(*choice, inner)]
            is_choice(*choice, inner) && is_wrapped(
                *choice,
                text::texts(includes@),
                text::texts(highlights@),
                inner,
                built,
            ),
{
    let inner = line_formatter(choice);
    let ghost chosen = inner;
    let built = wrap_formatter_with_stern_highlight(choice, includes, highlights, inner);
    assert(is_choice(*choice, chosen));
    built
}

/// Slots are assigned for the default formatter alone, as its switches ask.
pub proof fn law_slots_for_default_output(formatter: FormatterChoice, diff_container: bool)
    ensures
        !(formatter is Default) ==> !palette_opts(formatter, diff_container).pod_colors && !palette_opts(
            formatter,
            diff_container,
        ).container_colors,
        formatter matches FormatterChoice::Default { pod_colors, container_colors, .. } ==> {
            let opts = palette_opts(formatter, diff_container);
            opts.pod_colors == pod_colors && opts.container_colors == container_colors
                && opts.diff_container == diff_container
        },
{
}

/// A choice is answered with its own formatter: the pretty form of extended JSON exactly where it was
/// asked for, and extended JSON never in colors.
pub proof fn law_chosen_formatter(choice: FormatterChoice, built: BaseFormatter)
    requires
        is_choice(choice, built),
    ensures
        built is Default <==> choice is Default,
        built is Json <==> choice is Json,
        built is Raw <==> choice is Raw,
        built matches BaseFormatter::ExtJson(f) ==> !f.color_enabled && (f.pretty <==> choice is PpExtJson),
        choice matches FormatterChoice::ExtJson { all_namespaces } ==> (
        built matches BaseFormatter::ExtJson(f) && f.all_namespaces == all_namespaces),
        choice matches FormatterChoice::PpExtJson { all_namespaces } ==> (
        built matches BaseFormatter::ExtJson(f) && f.all_namespaces == all_namespaces),
        choice matches FormatterChoice::Default { color_enabled, pod_colors, container_colors, timestamp_style, .. }
            ==> (built matches BaseFormatter::Default(f) && f.color_enabled == color_enabled
            && f.pod_colors == pod_colors && f.container_colors == container_colors
            && f.timestamp_style == timestamp_style),
        choice matches FormatterChoice::Default { timestamp_zone, .. } ==> (
        built matches BaseFormatter::Default(f) && (f.timestamp_zone is Utc <==> timestamp_zone is Utc)
            && (f.timestamp_zone is Local <==> timestamp_zone is Local) && (
        timestamp_zone matches TimestampZone::Iana(x) ==> (
        f.timestamp_zone matches TimestampZone::Iana(y) && x@ == y@))),
{
}

/// Emphasis is put on the default output alone, and there exactly if some pattern is not blank.
pub proof fn law_emphasis_on_default_output(
    choice: FormatterChoice,
    includes: Seq<Seq<char>>,
    highlights: Seq<Seq<char>>,
    inner: BaseFormatter,
    built: BuiltFormatter,
)
    requires
        is_wrapped(choice, includes, highlights, inner, Ok(built)),
    ensures
        built is Highlighted <==> choice is Default && ((exists|i: int|
            0 <= i < includes.len() && text::trimmed(#[trigger] includes[i]).len() > 0) || (exists|i: int|
            0 <= i < highlights.len() && text::trimmed(#[trigger] highlights[i]).len() > 0)),
        built matches BuiltFormatter::Plain(f) ==> f == inner,
        built matches BuiltFormatter::Highlighted(f) ==> f.inner == inner,
{
    highlight::law_blank_patterns_emphasize_nothing(includes, highlights);
}

/// A formatter writes as the one that it stands for, and with emphasis on top as the one below with
/// what the pattern matches emphasized.
pub proof fn law_built_formatter_writes_as_chosen(
    built: BuiltFormatter,
    event: LogEvent,
    before: Seq<char>,
    after: Seq<char>,
)
    requires
        built.formats(event, before, after),
    ensures
        built matches BuiltFormatter::Plain(BaseFormatter::Raw(_)) ==> after == before + event.message@
            + "\n"@,
        built matches BuiltFormatter::Plain(BaseFormatter::Default(f)) ==> f.formats(
            event,
            before,
            after,
        ),
        built matches BuiltFormatter::Plain(BaseFormatter::Json(f)) ==> f.formats(event, before, after),
        built matches BuiltFormatter::Plain(BaseFormatter::ExtJson(f)) ==> f.formats(
            event,
            before,
            after,
        ),
        built matches BuiltFormatter::Highlighted(f) ==> exists|plain: Seq<char>| #[trigger]
            f.inner.formats(event, before, plain) && after == highlight::emphasized(
                plain,
                regex_limits::pattern_stretches(f.re@, plain),
            ),
{
}

/// What is emphasized is what the alternation of the patterns matches.
pub proof fn law_emphasis_by_alternation(
    choice: FormatterChoice,
    includes: Seq<Seq<char>>,
    highlights: Seq<Seq<char>>,
    inner: BaseFormatter,
    built: Result<BuiltFormatter, RenderSetupError>,
)
    requires
        is_wrapped(choice, includes, highlights, inner, built),
    ensures
        built matches Ok(BuiltFormatter::Highlighted(f)) ==> highlight::alternation(includes, highlights)
            == Some(f.re@),
        built matches Err(RenderSetupError::HighlightRegex(reason)) ==> choice is Default && (
        highlight::alternation(includes, highlights) matches Some(pattern)
            && !regex_limits::pattern_compiles(pattern) && reason@ == regex_limits::pattern_error(
            pattern,
        )),
{
}

} // verus!
